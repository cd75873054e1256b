//! How the pages arrange the totals they are given, in terms of those totals.
use vstd::prelude::*;

use super::detail;
use super::detail::{AccountDetailData, DetailFigures, DetailRanked, DetailTotals};
use super::month;
use super::month::{MonthFigures, MonthRanked, MonthTotals};
use super::overview;
use super::page::OverviewData;
use super::range::Range;
use super::shown;
use super::window;
use super::window::{WindowFigures, WindowRanked, WindowTotals};
use crate::amount::Amount;
use crate::calendar;
use crate::calendar::Timestamp;
use crate::ledger::measured;
use crate::ledger::ranked;
use crate::list;
use crate::model::ServiceTagUsage;

verus! {

/// What a named total amounts to.
pub open spec fn of_named() -> spec_fn((String, Amount)) -> Amount {
    |total: (String, Amount)| total.1
}

/// What the total of a service amounts to.
pub open spec fn of_service() -> spec_fn((String, String, Amount)) -> Amount {
    |total: (String, String, Amount)| total.2
}

/// What the usage of a service under a tag amounts to.
pub open spec fn of_tag() -> spec_fn(ServiceTagUsage) -> Amount {
    |total: ServiceTagUsage| total.amount
}

/// A list ranks totals: it has those above zero and no other, the largest first.
pub open spec fn ranks<T>(listed: Seq<T>, totals: Seq<T>, amount: spec_fn(T) -> Amount) -> bool {
    &&& forall|i: int|
        #![trigger listed[i]]
        0 <= i < listed.len() ==> totals.contains(listed[i]) && shown::nothing().lt(
            amount(listed[i]),
        )
    &&& forall|p: int|
        #![trigger totals[p]]
        0 <= p < totals.len() && shown::nothing().lt(amount(totals[p])) ==> listed.contains(
            totals[p],
        )
    &&& forall|i: int, j: int|
        #![trigger listed[i], listed[j]]
        0 <= i < j < listed.len() ==> amount(listed[j]).le(amount(listed[i]))
}

proof fn lemma_ranks<T>(totals: Seq<T>, amounts: Seq<Amount>, amount: spec_fn(T) -> Amount)
    requires
        amounts.len() == totals.len(),
        forall|p: int| 0 <= p < totals.len() ==> #[trigger] amounts[p] == amount(totals[p]),
    ensures
        ranks(ranked::positive_first(totals, amounts), totals, amount),
{
    let listed = ranked::positive_first(totals, amounts);
    let at = measured::a_ranking_keeps_the_positive_totals(totals, amounts);
    assert forall|i: int| #![trigger listed[i]] 0 <= i < listed.len() implies totals.contains(
        listed[i],
    ) && shown::nothing().lt(amount(listed[i])) by {
        assert(measured::stands_positive(totals, amounts, at[i], listed[i]));
        assert(totals[at[i]] == listed[i]);
        assert(amounts[at[i]] == amount(listed[i]));
    }
    assert forall|p: int|
        #![trigger totals[p]]
        0 <= p < totals.len() && shown::nothing().lt(amount(totals[p])) implies listed.contains(
        totals[p],
    ) by {
        assert(amounts[p] == amount(totals[p]));
        assert(at.contains(p));
        let i = choose|i: int| 0 <= i < at.len() && at[i] == p;
        assert(measured::stands_positive(totals, amounts, at[i], listed[i]));
    }
    assert forall|i: int, j: int|
        #![trigger listed[i], listed[j]]
        0 <= i < j < listed.len() implies amount(listed[j]).le(amount(listed[i])) by {
        assert(measured::stands_positive(totals, amounts, at[i], listed[i]));
        assert(measured::stands_positive(totals, amounts, at[j], listed[j]));
        assert(amounts[at[i]] == amount(listed[i]) && amounts[at[j]] == amount(listed[j]));
    }
}

/// Each service stands beside what the earlier list gives that service of that
/// provider, or nothing where it lists none.
pub open spec fn stand_beside(
    priors: Seq<Amount>,
    services: Seq<(String, String, Amount)>,
    before: Seq<(String, String, Amount)>,
) -> bool {
    &&& priors.len() == services.len()
    &&& forall|i: int, b: int|
        #![trigger services[i], before[b]]
        0 <= i < services.len() && shown::is_first_of(
            before,
            services[i].0@,
            services[i].1@,
            b,
        ) ==> priors[i] == before[b].2
    &&& forall|i: int|
        #![trigger services[i]]
        0 <= i < services.len() && (forall|b: int|
            0 <= b < before.len() ==> (#[trigger] before[b]).0@ != services[i].0@ || before[b].1@
                != services[i].1@) ==> priors[i] == shown::nothing()
}

proof fn lemma_stand_beside(
    priors: Seq<Amount>,
    services: Seq<(String, String, Amount)>,
    before: Seq<(String, String, Amount)>,
)
    requires
        priors == Seq::new(
            services.len(),
            |i: int| overview::prior_amount(before, services[i].0@, services[i].1@),
        ),
    ensures
        stand_beside(priors, services, before),
{
    assert forall|i: int, b: int|
        #![trigger services[i], before[b]]
        0 <= i < services.len() && shown::is_first_of(
            before,
            services[i].0@,
            services[i].1@,
            b,
        ) implies priors[i] == before[b].2 by {
        shown::a_service_is_compared_with_itself(before, services[i].0@, services[i].1@);
    }
    assert forall|i: int|
        #![trigger services[i]]
        0 <= i < services.len() && (forall|b: int|
            0 <= b < before.len() ==> (#[trigger] before[b]).0@ != services[i].0@ || before[b].1@
                != services[i].1@) implies priors[i] == shown::nothing() by {
        shown::a_service_is_compared_with_itself(before, services[i].0@, services[i].1@);
    }
}

/// The month's page keeps its totals, ranks the lines and the services of both
/// months, puts each service beside what it was last month, and lets a service
/// drive the line that most of its tagged usage is of.
pub proof fn the_month_is_ranked_by_its_totals(
    ranked: MonthRanked,
    totals: MonthTotals,
    now: Timestamp,
)
    requires
        month::ranks_month(ranked, totals, now),
    ensures
        ranked.spend == totals.spend,
        ranked.usage == totals.usage,
        ranked.credits == totals.credits,
        ranks(ranked.lines@, totals.lines@, of_named()),
        ranks(ranked.services@, totals.services@, of_service()),
        ranks(ranked.services_before@, totals.services_before@, of_service()),
        stand_beside(ranked.priors@, ranked.services@, ranked.services_before@),
        forall|provider: Seq<char>, service: Seq<char>|
            #![trigger overview::listed_line(ranked.drives@, provider, service)]
            drives_its_line(
                overview::listed_line(ranked.drives@, provider, service),
                totals.tags@,
                provider,
                service,
            ),
{
    lemma_ranks(totals.lines@, ranked::named_amounts(totals.lines@), of_named());
    lemma_ranks(totals.services@, ranked::service_amounts(totals.services@), of_service());
    lemma_ranks(
        totals.services_before@,
        ranked::service_amounts(totals.services_before@),
        of_service(),
    );
    lemma_stand_beside(ranked.priors@, ranked.services@, ranked.services_before@);
    let amounts = ranked::tag_usage_amounts(totals.tags@);
    let tags = ranked::positive_first(totals.tags@, amounts);
    lemma_ranks(totals.tags@, amounts, of_tag());
    assert forall|provider: Seq<char>, service: Seq<char>|
        #![trigger overview::listed_line(ranked.drives@, provider, service)]
        drives_its_line(
            overview::listed_line(ranked.drives@, provider, service),
            totals.tags@,
            provider,
            service,
        ) by {
        shown::a_service_drives_its_first_line(tags, provider, service);
    }
}

/// The line that a service drives, by lists that rank its usage by tag.
pub open spec fn drives_its_line(
    line: Option<Seq<char>>,
    totals: Seq<ServiceTagUsage>,
    provider: Seq<char>,
    service: Seq<char>,
) -> bool {
    exists|tags: Seq<ServiceTagUsage>|
        {
            &&& #[trigger] ranks(tags, totals, of_tag())
            &&& forall|i: int| #[trigger]
                shown::is_first_line(tags, provider, service, i) ==> line == Some(
                    tags[i].tag_value@,
                )
            &&& (forall|i: int|
                0 <= i < tags.len() ==> (#[trigger] tags[i]).provider@ != provider
                    || tags[i].service@ != service) ==> line is None
        }
}

/// The page of a window keeps its totals, ranks the lines and the services of both
/// windows, and puts each service beside what it was in the window before.
pub proof fn the_window_is_ranked_by_its_totals(
    ranked: WindowRanked,
    totals: WindowTotals,
    range: Range,
    now: Timestamp,
)
    requires
        window::ranks_window(ranked, totals, range, now),
    ensures
        ranked.spend == totals.spend,
        ranked.usage == totals.usage,
        ranked.credits == totals.credits,
        ranked.prior == totals.prior,
        ranked.series == totals.series,
        ranks(ranked.lines@, totals.lines@, of_named()),
        ranks(ranked.services@, totals.services@, of_service()),
        ranks(ranked.services_before@, totals.services_before@, of_service()),
        stand_beside(ranked.priors@, ranked.services@, ranked.services_before@),
{
    lemma_ranks(totals.lines@, ranked::named_amounts(totals.lines@), of_named());
    lemma_ranks(totals.services@, ranked::service_amounts(totals.services@), of_service());
    lemma_ranks(
        totals.services_before@,
        ranked::service_amounts(totals.services_before@),
        of_service(),
    );
    lemma_stand_beside(ranked.priors@, ranked.services@, ranked.services_before@);
}

/// A named total is what an earlier list gives the name first, or nothing where it
/// does not have it.
pub open spec fn was_before(
    amount: Amount,
    before: Seq<(String, Amount)>,
    name: Seq<char>,
) -> bool {
    &&& forall|b: int|
        #![trigger before[b]]
        0 <= b < before.len() && before[b].0@ == name && (forall|c: int|
            0 <= c < b ==> (#[trigger] before[c]).0@ != name) ==> amount == before[b].1
    &&& (forall|b: int| 0 <= b < before.len() ==> (#[trigger] before[b]).0@ != name) ==> amount
        == shown::nothing()
}

proof fn lemma_was_before(before: Seq<(String, Amount)>, name: Seq<char>)
    ensures
        was_before(detail::prior_named(before, name), before, name),
{
    let test = detail::total_of(name);
    list::first_index_is_first(before, test);
    match list::first_index(before, test) {
        Some(f) => {
            assert(test(before[f]));
            assert forall|b: int|
                #![trigger before[b]]
                0 <= b < before.len() && before[b].0@ == name && (forall|c: int|
                    0 <= c < b ==> (#[trigger] before[c]).0@ != name) implies b == f by {
                assert(test(before[b]));
                if f < b {
                    assert(before[f].0@ != name);
                }
            }
        },
        None => {
            assert forall|b: int| 0 <= b < before.len() implies (#[trigger] before[b]).0@
                != name by {
                assert(!test(before[b]));
            }
        },
    }
}

/// The page of an account keeps its totals, ranks its services of both windows, and
/// puts each beside what it was in the window before.
pub proof fn the_account_is_ranked_by_its_totals(
    ranked: DetailRanked,
    totals: DetailTotals,
    range: Range,
    now: Timestamp,
)
    requires
        detail::ranks_account(ranked, totals, range, now),
    ensures
        ranked.usage == totals.usage,
        ranked.credits == totals.credits,
        ranked.series == totals.series,
        range != Range::Mtd ==> ranked.prior@ == totals.prior@,
        ranks(ranked.services@, totals.services@, of_named()),
        ranks(ranked.services_before@, totals.services_before@, of_named()),
        ranked.priors@.len() == ranked.services@.len(),
        forall|i: int|
            #![trigger ranked.priors@[i]]
            0 <= i < ranked.priors@.len() ==> was_before(
                ranked.priors@[i],
                ranked.services_before@,
                ranked.services@[i].0@,
            ),
{
    lemma_ranks(totals.services@, ranked::named_amounts(totals.services@), of_named());
    lemma_ranks(
        totals.services_before@,
        ranked::named_amounts(totals.services_before@),
        of_named(),
    );
    assert forall|i: int| #![trigger ranked.priors@[i]] 0 <= i < ranked.priors@.len() implies
        was_before(ranked.priors@[i], ranked.services_before@, ranked.services@[i].0@) by {
        lemma_was_before(ranked.services_before@, ranked.services@[i].0@);
    }
}

/// The account page has a row for every ranked service, with its name, its amount,
/// its share of the usage, and its change where it was a cent or more before; its
/// spend is what usage and credits come to.
pub proof fn the_account_page_lists_its_services(
    page: AccountDetailData,
    ranked: DetailRanked,
    figures: DetailFigures,
    range: Range,
    now: Timestamp,
    before: Amount,
    i: int,
)
    requires
        detail::shows_account(page, ranked, figures, range, now),
        0 <= i < ranked.services@.len(),
        before == detail::prior_named(ranked.services_before@, ranked.services@[i].0@),
    ensures
        page.usage == ranked.usage,
        page.credits == ranked.credits,
        page.spend == figures.spend,
        page.services@.len() == ranked.services@.len(),
        page.services@[i].name == ranked.services@[i].0,
        page.services@[i].amount == ranked.services@[i].1,
        page.services@[i].share == (if shown::nothing().lt(ranked.usage) {
            figures.shares@[i]
        } else {
            shown::nothing()
        }),
        was_before(before, ranked.services_before@, ranked.services@[i].0@),
        page.services@[i].change_pct is Some <==> shown::cent().le(before),
        page.services@[i].change_pct is Some ==> page.services@[i].change_pct->0
            == figures.pcts@[i],
        page.change_pct is Some <==> shown::cent().le(figures.prior),
        page.change_pct is Some ==> page.change_pct->0 == figures.change,
{
    lemma_was_before(ranked.services_before@, ranked.services@[i].0@);
    shown::a_percentage_needs_a_base(before, figures.pcts@[i], ranked.usage);
    shown::a_percentage_needs_a_base(figures.prior, figures.shares@[i], ranked.usage);
    shown::a_percentage_needs_a_base(figures.prior, figures.change, ranked.usage);
}

/// The month's page keeps what was ranked, tells a change just where the same days
/// of last month came to a cent or more, and draws the trailing mean of each day of
/// its chart under the day's own label.
pub proof fn the_month_page_keeps_its_figures(
    page: OverviewData,
    ranked: MonthRanked,
    figures: MonthFigures,
)
    requires
        month::shows_month(page, ranked, figures),
    ensures
        page.stats.spend == ranked.spend,
        page.stats.usage == ranked.usage,
        page.stats.credits == ranked.credits,
        page.stats.change_pct is Some <==> shown::cent().le(figures.prior),
        page.stats.change_pct is Some ==> page.stats.change_pct->0 == figures.change,
        page.chart.actual@.len() == ranked.days@.len(),
        page.chart.baseline@.len() == ranked.days@.len(),
        forall|k: int|
            #![trigger page.chart.baseline@[k]]
            0 <= k < page.chart.baseline@.len() ==> page.chart.baseline@[k].amount
                == figures.means@[k] && page.chart.baseline@[k].label@ == calendar::day_label(
                ranked.days@[k],
            ),
{
    shown::a_percentage_needs_a_base(figures.prior, figures.change, ranked.usage);
}

/// The page of a window keeps what was ranked and the mean, tells a change just
/// where the window before came to a cent or more, and draws the trailing means of
/// a daily chart, under the days' own labels; a monthly chart has none.
pub proof fn the_window_page_keeps_its_figures(
    page: OverviewData,
    ranked: WindowRanked,
    figures: WindowFigures,
    range: Range,
    now: Timestamp,
)
    requires
        window::shows_window(page, ranked, figures, range, now),
    ensures
        page.stats.spend == ranked.spend,
        page.stats.usage == ranked.usage,
        page.stats.credits == ranked.credits,
        page.card2_value == figures.mean,
        page.stats.change_pct is Some <==> shown::cent().le(ranked.prior),
        page.stats.change_pct is Some ==> page.stats.change_pct->0 == figures.change,
        page.business_lines@.len() == ranked.lines@.len(),
        forall|i: int|
            #![trigger page.business_lines@[i]]
            0 <= i < page.business_lines@.len() ==> page.business_lines@[i].name
                == ranked.lines@[i].0 && page.business_lines@[i].amount == ranked.lines@[i].1,
        range == Range::Months12 ==> page.chart.baseline@.len() == 0,
        range != Range::Months12 ==> page.chart.baseline@.len() == ranked.days@.len() && forall|
            k: int,
        |
            #![trigger page.chart.baseline@[k]]
            0 <= k < page.chart.baseline@.len() ==> page.chart.baseline@[k].amount
                == figures.means@[k] && page.chart.baseline@[k].label@ == calendar::day_label(
                ranked.days@[k],
            ),
{
    shown::a_percentage_needs_a_base(ranked.prior, figures.change, ranked.usage);
}

} // verus!
