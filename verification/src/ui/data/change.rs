//! The month-over-month card: this month against the last, and why it changed.
use vstd::prelude::*;

use super::overview;
use super::overview::change_pct;
use crate::amount::{Amount, MINUS_HUNDRED};
use crate::ledger::ranked;
use crate::ledger::ranked::{sort_by_amount, truncated};
use crate::model::{CostChangeDecomposition, MovementKind, PeriodOverPeriod};
use crate::order;
use crate::text::same_text;

verus! {

/// How many services the month-over-month card lists.
pub const TOP_MONTH_OVER_MONTH_SERVICES: usize = 5;

/// How many category deltas and service movements the "why it changed" section
/// lists.
pub const TOP_DECOMPOSITION_ROWS: usize = 5;

// ==================== Services of two months ====================

/// A service in either of two months.
#[derive(Debug)]
pub struct Compared {
    pub service: String,
    pub current: Amount,
    pub previous: Amount,
    /// Charged last month and not listed this month.
    pub vanished: bool,
}

/// The amount a list of totals gives a name: the last one under it.
pub open spec fn last_amount(totals: Seq<(String, Amount)>, name: Seq<char>) -> Option<Amount>
    decreases totals.len(),
{
    if totals.len() == 0 {
        None
    } else if totals.last().0@ == name {
        Some(totals.last().1)
    } else {
        last_amount(totals.drop_last(), name)
    }
}

/// A name occurs among totals.
pub open spec fn has_name(totals: Seq<(String, Amount)>, name: Seq<char>) -> bool {
    exists|i: int| 0 <= i < totals.len() && #[trigger] totals[i].0@ == name
}

/// The last amount under a name.
pub fn find_last(totals: &Vec<(String, Amount)>, name: &str) -> (res: Option<Amount>)
    ensures
        res == last_amount(totals@, name@),
{
    let mut n: usize = totals.len();
    proof {
        assert(totals@.take(n as int) =~= totals@);
    }
    while n > 0
        invariant
            n <= totals.len(),
            last_amount(totals@, name@) == last_amount(totals@.take(n as int), name@),
        decreases n,
    {
        proof {
            assert(totals@.take(n as int).drop_last() =~= totals@.take(n - 1));
            assert(totals@.take(n as int).last() == totals@[n - 1]);
        }
        if same_text(&totals[n - 1].0, name) {
            return Some(totals[n - 1].1);
        }
        n = n - 1;
    }
    None
}

fn name_occurs(totals: &Vec<(String, Amount)>, name: &str) -> (res: bool)
    ensures
        res == has_name(totals@, name@),
{
    let mut i: usize = 0;
    while i < totals.len()
        invariant
            i <= totals.len(),
            forall|k: int| 0 <= k < i ==> #[trigger] totals@[k].0@ != name@,
        decreases totals.len() - i,
    {
        if same_text(&totals[i].0, name) {
            return true;
        }
        i = i + 1;
    }
    false
}

/// The names of totals.
pub open spec fn names_in(totals: Seq<(String, Amount)>) -> Seq<String> {
    totals.map_values(|t: (String, Amount)| t.0)
}

/// The names of totals, each once and in text order.
fn names_of(totals: &Vec<(String, Amount)>) -> (res: Vec<String>)
    ensures
        order::texts_ascend(res@),
        forall|i: int| 0 <= i < res@.len() ==> has_name(totals@, (#[trigger] res@[i])@),
        forall|i: int| 0 <= i < totals@.len() ==> order::lists(res@, (#[trigger] totals@[i]).0@),
{
    let mut names: Vec<String> = Vec::new();
    let mut i: usize = 0;
    while i < totals.len()
        invariant
            i <= totals.len(),
            names@ == names_in(totals@).take(i as int),
        decreases totals.len() - i,
    {
        names.push(totals[i].0.clone());
        i = i + 1;
        proof {
            assert(names@ =~= names_in(totals@).take(i as int));
        }
    }
    let res = order::distinct_texts(&names);
    proof {
        assert(names@ =~= names_in(totals@));
        assert forall|i: int| 0 <= i < res@.len() implies has_name(
            totals@,
            (#[trigger] res@[i])@,
        ) by {
            assert(order::lists(names@, res@[i]@));
            let k = choose|k: int| 0 <= k < names@.len() && (#[trigger] names@[k])@ == res@[i]@;
            assert(totals@[k].0@ == res@[i]@);
        }
        assert forall|i: int| 0 <= i < totals@.len() implies order::lists(
            res@,
            (#[trigger] totals@[i]).0@,
        ) by {
            assert(names@[i] == totals@[i].0);
        }
    }
    res
}

/// A service of this month, with what it was last month.
pub open spec fn is_current(row: Compared, current: (String, Amount), previous: Seq<(String, Amount)>) -> bool {
    &&& row.service@ == current.0@
    &&& row.current == current.1
    &&& row.previous == (match last_amount(previous, current.0@) {
        Some(amount) => amount,
        None => Amount { bits: 0 },
    })
    &&& !row.vanished
}

/// A service of last month that this month does not list.
pub open spec fn is_vanished(
    row: Compared,
    current: Seq<(String, Amount)>,
    previous: Seq<(String, Amount)>,
) -> bool {
    &&& has_name(previous, row.service@)
    &&& !has_name(current, row.service@)
    &&& row.current == Amount { bits: 0 }
    &&& Some(row.previous) == last_amount(previous, row.service@)
    &&& row.vanished
}

/// `rows` are the services of two months: those of this month in their order,
/// then those that vanished, each once and in text order.
pub open spec fn union_of(
    rows: Seq<Compared>,
    current: Seq<(String, Amount)>,
    previous: Seq<(String, Amount)>,
) -> bool {
    &&& rows.len() >= current.len()
    &&& forall|i: int|
        #![trigger rows[i]]
        0 <= i < current.len() ==> is_current(rows[i], current[i], previous)
    &&& forall|i: int|
        #![trigger rows[i]]
        current.len() <= i < rows.len() ==> is_vanished(rows[i], current, previous)
    &&& forall|i: int, j: int|
        #![trigger rows[i], rows[j]]
        current.len() <= i < j < rows.len() ==> order::text_lt(rows[i].service@, rows[j].service@)
    &&& forall|name: Seq<char>|
        has_name(previous, name) && !has_name(current, name) ==> exists|i: int|
            current.len() <= i < rows.len() && (#[trigger] rows[i]).service@ == name
}

proof fn lemma_named_total(totals: Seq<(String, Amount)>, name: Seq<char>)
    ensures
        has_name(totals, name) <==> last_amount(totals, name) is Some,
    decreases totals.len(),
{
    if totals.len() > 0 {
        lemma_named_total(totals.drop_last(), name);
        if has_name(totals, name) && totals.last().0@ != name {
            let i = choose|i: int| 0 <= i < totals.len() && #[trigger] totals[i].0@ == name;
            assert(totals.drop_last()[i].0@ == name);
        }
        if has_name(totals.drop_last(), name) {
            let i = choose|i: int|
                0 <= i < totals.drop_last().len() && #[trigger] totals.drop_last()[i].0@ == name;
            assert(totals[i].0@ == name);
        }
        if totals.last().0@ == name {
            assert(totals[totals.len() - 1].0@ == name);
        }
    }
}

/// The services of two months together.
pub fn services_of_both(current: &Vec<(String, Amount)>, previous: &Vec<(String, Amount)>) -> (res:
    Vec<Compared>)
    ensures
        union_of(res@, current@, previous@),
{
    let mut rows: Vec<Compared> = Vec::new();
    let mut i: usize = 0;
    while i < current.len()
        invariant
            i <= current.len(),
            rows@.len() == i,
            forall|k: int|
                #![trigger rows@[k]]
                0 <= k < i ==> is_current(rows@[k], current@[k], previous@),
        decreases current.len() - i,
    {
        let before = match find_last(previous, &current[i].0) {
            Some(amount) => amount,
            None => Amount::zero(),
        };
        rows.push(
            Compared {
                service: current[i].0.clone(),
                current: current[i].1,
                previous: before,
                vanished: false,
            },
        );
        i = i + 1;
    }
    let names = names_of(previous);
    let mut n: usize = 0;
    while n < names.len()
        invariant
            n <= names.len(),
            order::texts_ascend(names@),
            forall|i: int| 0 <= i < names@.len() ==> has_name(previous@, (#[trigger] names@[i])@),
            rows@.len() >= current@.len(),
            forall|k: int|
                #![trigger rows@[k]]
                0 <= k < current@.len() ==> is_current(rows@[k], current@[k], previous@),
            forall|k: int|
                #![trigger rows@[k]]
                current@.len() <= k < rows@.len() ==> is_vanished(rows@[k], current@, previous@)
                    && exists|m: int| 0 <= m < n && (#[trigger] names@[m])@ == rows@[k].service@,
            forall|k: int, j: int|
                #![trigger rows@[k], rows@[j]]
                current@.len() <= k < j < rows@.len() ==> order::text_lt(
                    rows@[k].service@,
                    rows@[j].service@,
                ),
            forall|m: int|
                #![trigger names@[m]]
                0 <= m < n && !has_name(current@, names@[m]@) ==> exists|k: int|
                    current@.len() <= k < rows@.len() && (#[trigger] rows@[k]).service@
                        == names@[m]@,
        decreases names.len() - n,
    {
        let ghost before = rows@;
        proof {
            lemma_named_total(previous@, names@[n as int]@);
            assert(has_name(previous@, names@[n as int]@));
        }
        if !name_occurs(current, &names[n]) {
            if let Some(amount) = find_last(previous, &names[n]) {
                let row = Compared {
                    service: names[n].clone(),
                    current: Amount::zero(),
                    previous: amount,
                    vanished: true,
                };
                proof {
                    assert forall|k: int|
                        #![trigger before[k]]
                        current@.len() <= k < before.len() implies order::text_lt(
                        before[k].service@,
                        row.service@,
                    ) by {
                        let m = choose|m: int|
                            0 <= m < n && (#[trigger] names@[m])@ == before[k].service@;
                        assert(order::text_lt(names@[m]@, names@[n as int]@));
                    }
                }
                rows.push(row);
            }
            proof {
                assert(rows@[rows@.len() - 1].service@ == names@[n as int]@);
                assert forall|m: int|
                    #![trigger names@[m]]
                    0 <= m < n + 1 && !has_name(current@, names@[m]@) implies exists|k: int|
                    current@.len() <= k < rows@.len() && (#[trigger] rows@[k]).service@
                        == names@[m]@ by {
                    if m < n {
                        let k = choose|k: int|
                            current@.len() <= k < before.len() && (#[trigger] before[k]).service@
                                == names@[m]@;
                        assert(rows@[k].service@ == names@[m]@);
                    }
                }
                assert forall|k: int|
                    #![trigger rows@[k]]
                    current@.len() <= k < rows@.len() implies is_vanished(
                    rows@[k],
                    current@,
                    previous@,
                ) && exists|m: int| 0 <= m < n + 1 && (#[trigger] names@[m])@ == rows@[k].service@ by {
                    if k < before.len() {
                        assert(rows@[k] == before[k]);
                        let m = choose|m: int|
                            0 <= m < n && (#[trigger] names@[m])@ == before[k].service@;
                        assert(names@[m]@ == rows@[k].service@);
                    } else {
                        assert(names@[n as int]@ == rows@[k].service@);
                    }
                }
            }
        }
        n = n + 1;
    }
    proof {
        assert forall|name: Seq<char>|
            has_name(previous@, name) && !has_name(current@, name) implies exists|k: int|
            current@.len() <= k < rows@.len() && (#[trigger] rows@[k]).service@ == name by {
            let p = choose|p: int| 0 <= p < previous@.len() && #[trigger] previous@[p].0@ == name;
            assert(order::lists(names@, previous@[p].0@));
            let m = choose|m: int|
                0 <= m < names@.len() && (#[trigger] names@[m])@ == previous@[p].0@;
            assert(!has_name(current@, names@[m]@));
        }
    }
    rows
}

/// What a compared service ranks by: its larger month.
pub open spec fn larger_months(rows: Seq<Compared>) -> Seq<Amount> {
    rows.map_values(|r: Compared| r.current.max_of(r.previous))
}

/// The largest services of two months.
pub open spec fn largest_services(rows: Seq<Compared>) -> Seq<Compared> {
    ranked::first(ranked::sorted_by_amount(rows, larger_months(rows)), 5)
}

/// The largest services of the two months combined, biggest first.
pub fn compared_services(pop: &PeriodOverPeriod) -> (res: Vec<Compared>)
    ensures
        exists|rows: Seq<Compared>|
            {
                &&& #[trigger] union_of(
                    rows,
                    pop.current_by_service@,
                    pop.previous_by_service@,
                )
                &&& res@ == largest_services(rows)
            },
        res@.len() <= 5,
{
    let rows = services_of_both(&pop.current_by_service, &pop.previous_by_service);
    let mut sizes: Vec<Amount> = Vec::new();
    let mut i: usize = 0;
    while i < rows.len()
        invariant
            i <= rows.len(),
            sizes@ == larger_months(rows@).take(i as int),
        decreases rows.len() - i,
    {
        sizes.push(rows[i].current.max(rows[i].previous));
        i = i + 1;
        proof {
            assert(sizes@ =~= larger_months(rows@).take(i as int));
        }
    }
    proof {
        assert(sizes@ =~= larger_months(rows@));
        assert(union_of(rows@, pop.current_by_service@, pop.previous_by_service@));
    }
    truncated(sort_by_amount(rows, &sizes), TOP_MONTH_OVER_MONTH_SERVICES)
}

/// Services of this month and those that vanished are what a pair of totals
/// determines: two lists that both are the union of the same months agree in
/// every value.
pub proof fn unions_agree(
    one: Seq<Compared>,
    other: Seq<Compared>,
    current: Seq<(String, Amount)>,
    previous: Seq<(String, Amount)>,
)
    requires
        union_of(one, current, previous),
        union_of(other, current, previous),
    ensures
        one.len() == other.len(),
        forall|i: int|
            #![trigger one[i]]
            #![trigger other[i]]
            0 <= i < one.len() ==> {
                &&& one[i].service@ == other[i].service@
                &&& one[i].current == other[i].current
                &&& one[i].previous == other[i].previous
                &&& one[i].vanished == other[i].vanished
            },
{
    let n = current.len() as int;
    lemma_vanished_prefix(one, other, current, previous, one.len() - n);
    lemma_vanished_prefix(other, one, current, previous, other.len() - n);
    assert forall|i: int|
        #![trigger one[i]]
        #![trigger other[i]]
        0 <= i < one.len() implies one[i].service@ == other[i].service@ && one[i].current
        == other[i].current && one[i].previous == other[i].previous && one[i].vanished
        == other[i].vanished by {
        if i < n {
            assert(is_current(one[i], current[i], previous));
            assert(is_current(other[i], current[i], previous));
        } else {
            assert(is_vanished(one[i], current, previous));
            assert(is_vanished(other[i], current, previous));
        }
    }
}

/// The first vanished services of one list are those of the other.
proof fn lemma_vanished_prefix(
    one: Seq<Compared>,
    other: Seq<Compared>,
    current: Seq<(String, Amount)>,
    previous: Seq<(String, Amount)>,
    count: int,
)
    requires
        union_of(one, current, previous),
        union_of(other, current, previous),
        0 <= count <= one.len() - current.len(),
    ensures
        count <= other.len() - current.len(),
        forall|i: int|
            #![trigger one[i]]
            #![trigger other[i]]
            current.len() <= i < current.len() + count ==> one[i].service@ == other[i].service@,
    decreases count,
{
    if count > 0 {
        lemma_vanished_prefix(one, other, current, previous, count - 1);
        let n = current.len() as int;
        let p = n + count - 1;
        let name = one[p].service@;
        assert(is_vanished(one[p], current, previous));
        assert(has_name(previous, name) && !has_name(current, name));
        let q = choose|q: int| n <= q < other.len() && (#[trigger] other[q]).service@ == name;
        if q < p {
            // Then the same name stands earlier in `one` too.
            assert(one[q].service@ == other[q].service@);
            assert(order::text_lt(one[q].service@, one[p].service@));
            order::lemma_text_lt_asymmetric(one[q].service@, one[p].service@);
        }
        let other_name = other[p].service@;
        if other_name != name {
            assert(is_vanished(other[p], current, previous));
            let r = choose|r: int| n <= r < one.len() && (#[trigger] one[r]).service@ == other_name;
            assert(order::text_lt(other[p].service@, other[q].service@));
            if r < p {
                assert(one[r].service@ == other[r].service@);
                assert(order::text_lt(other[r].service@, other[p].service@));
                order::lemma_text_lt_asymmetric(other[r].service@, other[p].service@);
            } else {
                if r > p {
                    assert(order::text_lt(one[p].service@, one[r].service@));
                }
                order::lemma_text_lt_asymmetric(other_name, name);
            }
        }
    }
}

/// One service of the month-over-month card.
#[derive(Debug)]
pub struct ServiceMonthComparison {
    pub service: String,
    /// Net charged this month to date.
    pub current: Amount,
    /// Net charged over the whole previous month.
    pub previous: Amount,
    /// Percent change; `None` when last month's base is under a cent.
    pub change_pct: Option<Amount>,
}

impl Clone for ServiceMonthComparison {
    fn clone(&self) -> (res: Self)
        ensures
            res == *self,
    {
        ServiceMonthComparison {
            service: self.service.clone(),
            current: self.current,
            previous: self.previous,
            change_pct: self.change_pct,
        }
    }
}

/// A compared service as the card shows it: a service that vanished is down by
/// a hundred percent.
pub open spec fn comparison(row: Compared, pct: Amount) -> ServiceMonthComparison {
    ServiceMonthComparison {
        service: row.service,
        current: row.current,
        previous: row.previous,
        change_pct: overview::change_from(
            row.previous,
            if row.vanished {
                Amount { bits: MINUS_HUNDRED }
            } else {
                pct
            },
        ),
    }
}

/// The month-over-month card. Net, not gross usage: it mirrors the headline
/// spend number.
#[derive(Debug)]
pub struct MonthOverMonth {
    /// Net charged this month to date.
    pub current_total: Amount,
    /// Net charged over the whole previous month.
    pub previous_total: Amount,
    /// Percent change of the totals; `None` on a base under a cent.
    pub change_pct: Option<Amount>,
    /// The largest services of the two months combined, biggest first.
    pub services: Vec<ServiceMonthComparison>,
    /// The "why it changed" section; `None` when there is none to show.
    pub decomposition: Option<ChangeDecomposition>,
}

/// The month-over-month card. `services` is what [`compared_services`] lists;
/// `pcts` holds the change of each in percent and `total_pct` that of the
/// totals, each read only on a base of at least a cent.
pub fn month_over_month(
    pop: &PeriodOverPeriod,
    services: &Vec<Compared>,
    pcts: &Vec<Amount>,
    total_pct: Amount,
    decomposition: Option<ChangeDecomposition>,
) -> (res: MonthOverMonth)
    requires
        pcts@.len() == services@.len(),
    ensures
        res.current_total == pop.current_total,
        res.previous_total == pop.previous_total,
        res.change_pct == overview::change_from(pop.previous_total, total_pct),
        res.services@ == Seq::new(
            services@.len(),
            |i: int| comparison(services@[i], pcts@[i]),
        ),
        res.decomposition == decomposition,
{
    let mut rows: Vec<ServiceMonthComparison> = Vec::new();
    let mut i: usize = 0;
    while i < services.len()
        invariant
            i <= services.len(),
            pcts@.len() == services@.len(),
            rows@.len() == i,
            forall|k: int| 0 <= k < i ==> #[trigger] rows@[k] == comparison(services@[k], pcts@[k]),
        decreases services.len() - i,
    {
        let pct = if services[i].vanished {
            Amount { bits: MINUS_HUNDRED }
        } else {
            pcts[i]
        };
        rows.push(
            ServiceMonthComparison {
                service: services[i].service.clone(),
                current: services[i].current,
                previous: services[i].previous,
                change_pct: change_pct(services[i].previous, pct),
            },
        );
        i = i + 1;
    }
    proof {
        assert(rows@ =~= Seq::new(
            services@.len(),
            |i: int| comparison(services@[i], pcts@[i]),
        ));
    }
    MonthOverMonth {
        current_total: pop.current_total,
        previous_total: pop.previous_total,
        change_pct: change_pct(pop.previous_total, total_pct),
        services: rows,
        decomposition,
    }
}

// ==================== Why it changed ====================

/// The direction badge of one service movement.
#[derive(Clone, Copy, PartialEq, Eq, Structural, Debug)]
pub enum MovementBadge {
    Appeared,
    Vanished,
    Grown,
    Shrunk,
}

impl MovementBadge {
    pub fn label(self) -> (res: &'static str)
        ensures
            res@ == (match self {
                MovementBadge::Appeared => "Appeared"@,
                MovementBadge::Vanished => "Vanished"@,
                MovementBadge::Grown => "Grown"@,
                MovementBadge::Shrunk => "Shrunk"@,
            }),
    {
        match self {
            MovementBadge::Appeared => "Appeared",
            MovementBadge::Vanished => "Vanished",
            MovementBadge::Grown => "Grown",
            MovementBadge::Shrunk => "Shrunk",
        }
    }
}

/// One charge-category delta.
#[derive(Debug)]
pub struct CategoryDeltaRow {
    pub category: String,
    /// Net change of the category against last month.
    pub delta: Amount,
}

impl Clone for CategoryDeltaRow {
    fn clone(&self) -> (res: Self)
        ensures
            res == *self,
    {
        CategoryDeltaRow {
            category: self.category.clone(),
            delta: self.delta,
        }
    }
}

/// One service movement.
#[derive(Debug)]
pub struct ServiceMovementRow {
    pub service: String,
    pub badge: MovementBadge,
    /// Net change of the service against last month.
    pub delta: Amount,
}

impl Clone for ServiceMovementRow {
    fn clone(&self) -> (res: Self)
        ensures
            res == *self,
    {
        ServiceMovementRow {
            service: self.service.clone(),
            badge: self.badge,
            delta: self.delta,
        }
    }
}

/// The "why it changed" section: what the delta is made of, and whether those
/// parts add back up to it.
#[derive(Debug)]
pub struct ChangeDecomposition {
    /// Top category deltas, largest absolute first.
    pub categories: Vec<CategoryDeltaRow>,
    /// Top service movements, largest absolute first.
    pub movements: Vec<ServiceMovementRow>,
    /// What the category split fails to explain of the total delta.
    pub residual: Amount,
    /// Whether the residual is small enough to ignore.
    pub reconciled: bool,
}

pub open spec fn badge_of(kind: MovementKind) -> MovementBadge {
    match kind {
        MovementKind::Appeared => MovementBadge::Appeared,
        MovementKind::Vanished => MovementBadge::Vanished,
        MovementKind::Grown => MovementBadge::Grown,
        MovementKind::Shrunk => MovementBadge::Shrunk,
    }
}

fn badge(kind: MovementKind) -> (res: MovementBadge)
    ensures
        res == badge_of(kind),
{
    match kind {
        MovementKind::Appeared => MovementBadge::Appeared,
        MovementKind::Vanished => MovementBadge::Vanished,
        MovementKind::Grown => MovementBadge::Grown,
        MovementKind::Shrunk => MovementBadge::Shrunk,
    }
}

/// The section shows the first rows of each split, and the reconciliation as it
/// came.
pub open spec fn shows(section: ChangeDecomposition, of: CostChangeDecomposition) -> bool {
    &&& section.categories@ == ranked::first(
        of.by_category@,
        TOP_DECOMPOSITION_ROWS as nat,
    ).map_values(
        |row: crate::model::CategoryDelta| CategoryDeltaRow {
            category: row.category,
            delta: row.delta,
        },
    )
    &&& section.movements@ == ranked::first(
        of.by_service@,
        TOP_DECOMPOSITION_ROWS as nat,
    ).map_values(
        |row: crate::model::ServiceMovement| ServiceMovementRow {
            service: row.service,
            badge: badge_of(row.kind),
            delta: row.delta,
        },
    )
    &&& section.residual == of.residual
    &&& section.reconciled == of.reconciled
}

/// The "why it changed" section of a decomposition; nothing in, nothing out.
pub fn change_decomposition(decomposition: Option<CostChangeDecomposition>) -> (res: Option<
    ChangeDecomposition,
>)
    ensures
        res is Some <==> decomposition is Some,
        res is Some ==> shows(res->0, decomposition->0),
{
    let of = match decomposition {
        Some(of) => of,
        None => {
            return None;
        },
    };
    let mut categories: Vec<CategoryDeltaRow> = Vec::new();
    let mut i: usize = 0;
    while i < of.by_category.len() && i < TOP_DECOMPOSITION_ROWS
        invariant
            i <= of.by_category.len(),
            i <= TOP_DECOMPOSITION_ROWS,
            categories@.len() == i,
            forall|k: int|
                0 <= k < i ==> #[trigger] categories@[k] == (CategoryDeltaRow {
                    category: of.by_category@[k].category,
                    delta: of.by_category@[k].delta,
                }),
        decreases of.by_category.len() - i,
    {
        categories.push(
            CategoryDeltaRow {
                category: of.by_category[i].category.clone(),
                delta: of.by_category[i].delta,
            },
        );
        i = i + 1;
    }
    let mut movements: Vec<ServiceMovementRow> = Vec::new();
    let mut m: usize = 0;
    while m < of.by_service.len() && m < TOP_DECOMPOSITION_ROWS
        invariant
            m <= of.by_service.len(),
            m <= TOP_DECOMPOSITION_ROWS,
            movements@.len() == m,
            forall|k: int|
                0 <= k < m ==> #[trigger] movements@[k] == (ServiceMovementRow {
                    service: of.by_service@[k].service,
                    badge: badge_of(of.by_service@[k].kind),
                    delta: of.by_service@[k].delta,
                }),
        decreases of.by_service.len() - m,
    {
        movements.push(
            ServiceMovementRow {
                service: of.by_service[m].service.clone(),
                badge: badge(of.by_service[m].kind),
                delta: of.by_service[m].delta,
            },
        );
        m = m + 1;
    }
    let section = ChangeDecomposition {
        categories,
        movements,
        residual: of.residual,
        reconciled: of.reconciled,
    };
    proof {
        assert(section.categories@ =~= ranked::first(
            of.by_category@,
            TOP_DECOMPOSITION_ROWS as nat,
        ).map_values(
            |row: crate::model::CategoryDelta| CategoryDeltaRow {
                category: row.category,
                delta: row.delta,
            },
        ));
        assert(section.movements@ =~= ranked::first(
            of.by_service@,
            TOP_DECOMPOSITION_ROWS as nat,
        ).map_values(
            |row: crate::model::ServiceMovement| ServiceMovementRow {
                service: row.service,
                badge: badge_of(row.kind),
                delta: row.delta,
            },
        ));
    }
    Some(section)
}

} // verus!
