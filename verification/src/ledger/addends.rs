//! What amounts are worked out of: sums of the ledger's own amounts, and sums of
//! such sums.
use vstd::prelude::*;

use crate::amount::Amount;
use crate::list;

verus! {

/// A part, as it is.
pub open spec fn whole() -> spec_fn(vstd::multiset::Multiset<Amount>) -> vstd::multiset::Multiset<
    Amount,
> {
    |part: vstd::multiset::Multiset<Amount>| part
}

/// A value is what `sum` makes of terms, and `from` is what the terms' parts are
/// together.
pub open spec fn is_sum(
    value: Amount,
    from: vstd::multiset::Multiset<Amount>,
    terms: Seq<Amount>,
    parts: Seq<vstd::multiset::Multiset<Amount>>,
    sum: spec_fn(Seq<Amount>) -> Amount,
) -> bool {
    &&& terms.len() == parts.len()
    &&& value == sum(terms)
    &&& from == list::pooled(parts, whole())
}

/// A value is worked out of the amounts `from`, each of them used once: it is the
/// one amount itself, or what `sum` makes of values that are worked out of parts
/// of them in one step fewer.
pub open spec fn made_of(
    value: Amount,
    from: vstd::multiset::Multiset<Amount>,
    steps: nat,
    sum: spec_fn(Seq<Amount>) -> Amount,
) -> bool
    decreases steps,
{
    if steps == 0 {
        from == vstd::multiset::Multiset::singleton(value)
    } else {
        ||| made_of(value, from, (steps - 1) as nat, sum)
        ||| exists|terms: Seq<Amount>, parts: Seq<vstd::multiset::Multiset<Amount>>|
            {
                &&& #[trigger] is_sum(value, from, terms, parts, sum)
                &&& forall|i: int|
                    0 <= i < terms.len() ==> made_of(
                        #[trigger] terms[i],
                        parts[i],
                        (steps - 1) as nat,
                        sum,
                    )
            }
    }
}

/// Each of the values is worked out of its part.
pub open spec fn parted(
    values: Seq<Amount>,
    parts: Seq<vstd::multiset::Multiset<Amount>>,
    steps: nat,
    sum: spec_fn(Seq<Amount>) -> Amount,
) -> bool {
    &&& values.len() == parts.len()
    &&& forall|i: int|
        0 <= i < values.len() ==> made_of(#[trigger] values[i], parts[i], steps, sum)
}

/// Values are worked out of amounts that values and parts show.
pub open spec fn shown(
    values: vstd::multiset::Multiset<Amount>,
    from: vstd::multiset::Multiset<Amount>,
    listed: Seq<Amount>,
    parts: Seq<vstd::multiset::Multiset<Amount>>,
) -> bool {
    listed.to_multiset() == values && list::pooled(parts, whole()) == from
}

/// The values together carry the amounts `from`: each is worked out of a part of
/// them, and the parts together are all of them, each once.
pub open spec fn carry(
    values: vstd::multiset::Multiset<Amount>,
    from: vstd::multiset::Multiset<Amount>,
    steps: nat,
    sum: spec_fn(Seq<Amount>) -> Amount,
) -> bool {
    exists|listed: Seq<Amount>, parts: Seq<vstd::multiset::Multiset<Amount>>|
        #[trigger] shown(values, from, listed, parts) && parted(listed, parts, steps, sum)
}

/// Nothing carries nothing.
pub proof fn nothing_carries_nothing(steps: nat, sum: spec_fn(Seq<Amount>) -> Amount)
    ensures
        carry(vstd::multiset::Multiset::empty(), vstd::multiset::Multiset::empty(), steps, sum),
{
    broadcast use vstd::seq_lib::group_to_multiset_ensures;

    let listed = Seq::<Amount>::empty();
    let parts = Seq::<vstd::multiset::Multiset<Amount>>::empty();
    assert(listed.to_multiset() =~= vstd::multiset::Multiset::empty());
    assert(shown(
        vstd::multiset::Multiset::empty(),
        vstd::multiset::Multiset::empty(),
        listed,
        parts,
    ));
    assert(parted(listed, parts, steps, sum));
}

/// What is worked out in some steps is worked out in more.
pub proof fn more_steps_carry_too(
    values: vstd::multiset::Multiset<Amount>,
    from: vstd::multiset::Multiset<Amount>,
    steps: nat,
    sum: spec_fn(Seq<Amount>) -> Amount,
)
    requires
        carry(values, from, steps, sum),
    ensures
        carry(values, from, steps + 1, sum),
{
    let (listed, parts) = choose|
        listed: Seq<Amount>,
        parts: Seq<vstd::multiset::Multiset<Amount>>,
    | #[trigger] shown(values, from, listed, parts) && parted(listed, parts, steps, sum);
    assert forall|i: int| 0 <= i < listed.len() implies made_of(
        #[trigger] listed[i],
        parts[i],
        steps + 1,
        sum,
    ) by {
        assert(made_of(listed[i], parts[i], steps, sum));
    }
    assert(shown(values, from, listed, parts));
    assert(parted(listed, parts, steps + 1, sum));
}

/// Values of two kinds together carry what each kind does.
pub proof fn carrying_together(
    one: vstd::multiset::Multiset<Amount>,
    one_from: vstd::multiset::Multiset<Amount>,
    other: vstd::multiset::Multiset<Amount>,
    other_from: vstd::multiset::Multiset<Amount>,
    steps: nat,
    sum: spec_fn(Seq<Amount>) -> Amount,
)
    requires
        carry(one, one_from, steps, sum),
        carry(other, other_from, steps, sum),
    ensures
        carry(one.add(other), one_from.add(other_from), steps, sum),
{
    let (a, p) = choose|a: Seq<Amount>, p: Seq<vstd::multiset::Multiset<Amount>>|
        #[trigger] shown(one, one_from, a, p) && parted(a, p, steps, sum);
    let (b, q) = choose|b: Seq<Amount>, q: Seq<vstd::multiset::Multiset<Amount>>|
        #[trigger] shown(other, other_from, b, q) && parted(b, q, steps, sum);
    vstd::seq_lib::lemma_multiset_commutative(a, b);
    list::pooling_splits(p, q, whole());
    assert forall|i: int| 0 <= i < (a + b).len() implies made_of(
        #[trigger] (a + b)[i],
        (p + q)[i],
        steps,
        sum,
    ) by {
        if i < a.len() {
            assert(made_of(a[i], p[i], steps, sum));
        } else {
            assert(made_of(b[i - a.len()], q[i - a.len()], steps, sum));
        }
    }
    assert(shown(one.add(other), one_from.add(other_from), a + b, p + q));
    assert(parted(a + b, p + q, steps, sum));
}

proof fn lemma_one_part(part: vstd::multiset::Multiset<Amount>)
    ensures
        list::pooled(
            Seq::<vstd::multiset::Multiset<Amount>>::empty().push(part),
            whole(),
        ) == part,
{
    let none = Seq::<vstd::multiset::Multiset<Amount>>::empty();
    assert(none.push(part).drop_last() =~= none);
    assert(list::pooled(none, whole()) == vstd::multiset::Multiset::<Amount>::empty());
    assert(list::pooled(none.push(part), whole()) =~= part);
}

/// One value carries what it is worked out of.
pub proof fn one_value_carries(
    value: Amount,
    from: vstd::multiset::Multiset<Amount>,
    steps: nat,
    sum: spec_fn(Seq<Amount>) -> Amount,
)
    requires
        made_of(value, from, steps, sum),
    ensures
        carry(vstd::multiset::Multiset::singleton(value), from, steps, sum),
{
    broadcast use vstd::seq_lib::group_to_multiset_ensures;

    let listed = Seq::<Amount>::empty().push(value);
    let parts = Seq::<vstd::multiset::Multiset<Amount>>::empty().push(from);
    assert(listed.to_multiset() =~= vstd::multiset::Multiset::singleton(value));
    lemma_one_part(from);
    assert(shown(vstd::multiset::Multiset::singleton(value), from, listed, parts));
    assert(parted(listed, parts, steps, sum));
}

/// A value taken out of others takes its part with it.
proof fn lemma_take_one(
    values: vstd::multiset::Multiset<Amount>,
    from: vstd::multiset::Multiset<Amount>,
    value: Amount,
    steps: nat,
    sum: spec_fn(Seq<Amount>) -> Amount,
) -> (res: (vstd::multiset::Multiset<Amount>, vstd::multiset::Multiset<Amount>))
    requires
        carry(values.insert(value), from, steps, sum),
    ensures
        made_of(value, res.0, steps, sum),
        carry(values, res.1, steps, sum),
        from == res.1.add(res.0),
{
    broadcast use vstd::seq_lib::group_to_multiset_ensures;

    let all = values.insert(value);
    let (listed, parts) = choose|
        listed: Seq<Amount>,
        parts: Seq<vstd::multiset::Multiset<Amount>>,
    | #[trigger] shown(all, from, listed, parts) && parted(listed, parts, steps, sum);
    assert(listed.to_multiset().count(value) > 0);
    assert(listed.contains(value));
    let k = choose|k: int| 0 <= k < listed.len() && listed[k] == value;
    let fewer = listed.remove(k);
    let rest = parts.remove(k);
    assert(fewer.to_multiset() =~= values);
    assert forall|i: int| 0 <= i < fewer.len() implies made_of(
        #[trigger] fewer[i],
        rest[i],
        steps,
        sum,
    ) by {
        if i < k {
            assert(made_of(listed[i], parts[i], steps, sum));
        } else {
            assert(made_of(listed[i + 1], parts[i + 1], steps, sum));
        }
    }
    let ahead = parts.take(k);
    let behind = parts.skip(k + 1);
    let one = Seq::<vstd::multiset::Multiset<Amount>>::empty().push(parts[k]);
    assert(parts =~= ahead + one + behind);
    assert(rest =~= ahead + behind);
    list::pooling_splits(ahead + one, behind, whole());
    list::pooling_splits(ahead, one, whole());
    list::pooling_splits(ahead, behind, whole());
    lemma_one_part(parts[k]);
    let left = list::pooled(rest, whole());
    assert(from =~= left.add(parts[k]));
    assert(shown(values, left, fewer, rest));
    assert(parted(fewer, rest, steps, sum));
    assert(made_of(listed[k], parts[k], steps, sum));
    (parts[k], left)
}

/// The parts of listed values among others, and what the others carry.
pub proof fn carrying_apart(
    listed: Seq<Amount>,
    others: vstd::multiset::Multiset<Amount>,
    from: vstd::multiset::Multiset<Amount>,
    steps: nat,
    sum: spec_fn(Seq<Amount>) -> Amount,
) -> (res: (Seq<vstd::multiset::Multiset<Amount>>, vstd::multiset::Multiset<Amount>))
    requires
        carry(listed.to_multiset().add(others), from, steps, sum),
    ensures
        parted(listed, res.0, steps, sum),
        carry(listed.to_multiset(), list::pooled(res.0, whole()), steps, sum),
        carry(others, res.1, steps, sum),
        from == list::pooled(res.0, whole()).add(res.1),
    decreases listed.len(),
{
    broadcast use vstd::seq_lib::group_to_multiset_ensures;

    if listed.len() == 0 {
        let none = Seq::<vstd::multiset::Multiset<Amount>>::empty();
        assert(listed.to_multiset() =~= vstd::multiset::Multiset::empty());
        assert(listed.to_multiset().add(others) =~= others);
        nothing_carries_nothing(steps, sum);
        assert(from =~= list::pooled(none, whole()).add(from));
        (none, from)
    } else {
        let fewer = listed.drop_last();
        let last = listed.last();
        assert(listed =~= fewer.push(last));
        assert(listed.to_multiset() =~= fewer.to_multiset().insert(last));
        let values = fewer.to_multiset().add(others);
        assert(listed.to_multiset().add(others) =~= values.insert(last));
        let (part, left) = lemma_take_one(values, from, last, steps, sum);
        let (parts, rest) = carrying_apart(fewer, others, left, steps, sum);
        let all = parts.push(part);
        assert(all.drop_last() =~= parts);
        assert forall|i: int| 0 <= i < listed.len() implies made_of(
            #[trigger] listed[i],
            all[i],
            steps,
            sum,
        ) by {
            if i < fewer.len() {
                assert(made_of(fewer[i], parts[i], steps, sum));
            }
        }
        assert(from =~= list::pooled(all, whole()).add(rest));
        assert(parted(listed, all, steps, sum));
        assert(shown(listed.to_multiset(), list::pooled(all, whole()), listed, all));
        (all, rest)
    }
}

/// Any amounts can be listed.
proof fn lemma_listed(values: vstd::multiset::Multiset<Amount>) -> (listed: Seq<Amount>)
    ensures
        listed.to_multiset() == values,
    decreases values.len(),
{
    broadcast use vstd::seq_lib::group_to_multiset_ensures;
    broadcast use vstd::multiset::group_multiset_axioms;
    broadcast use vstd::multiset::group_multiset_properties;

    if values.len() == 0 {
        let none = Seq::<Amount>::empty();
        assert(none.to_multiset() =~= values);
        none
    } else {
        let value = values.choose();
        let fewer = lemma_listed(values.remove(value));
        assert(fewer.push(value).to_multiset() =~= values);
        fewer.push(value)
    }
}

/// What values of two kinds carry together, each kind carries its part of.
pub proof fn carrying_split(
    one: vstd::multiset::Multiset<Amount>,
    other: vstd::multiset::Multiset<Amount>,
    from: vstd::multiset::Multiset<Amount>,
    steps: nat,
    sum: spec_fn(Seq<Amount>) -> Amount,
) -> (res: (vstd::multiset::Multiset<Amount>, vstd::multiset::Multiset<Amount>))
    requires
        carry(one.add(other), from, steps, sum),
    ensures
        carry(one, res.0, steps, sum),
        carry(other, res.1, steps, sum),
        from == res.0.add(res.1),
{
    let listed = lemma_listed(one);
    let (parts, rest) = carrying_apart(listed, other, from, steps, sum);
    (list::pooled(parts, whole()), rest)
}

/// The sum of values carries what the values do, in one step more.
pub proof fn a_sum_carries_its_terms(
    terms: Seq<Amount>,
    from: vstd::multiset::Multiset<Amount>,
    steps: nat,
    sum: spec_fn(Seq<Amount>) -> Amount,
)
    requires
        carry(terms.to_multiset(), from, steps, sum),
    ensures
        made_of(sum(terms), from, steps + 1, sum),
{
    let none = vstd::multiset::Multiset::<Amount>::empty();
    assert(terms.to_multiset().add(none) =~= terms.to_multiset());
    let (parts, rest) = carrying_apart(terms, none, from, steps, sum);
    nothing_carries_no_more(rest, steps, sum);
    assert(from =~= list::pooled(parts, whole()));
    assert(is_sum(sum(terms), from, terms, parts, sum));
}

/// Nothing carries nothing but nothing.
pub proof fn nothing_carries_no_more(
    from: vstd::multiset::Multiset<Amount>,
    steps: nat,
    sum: spec_fn(Seq<Amount>) -> Amount,
)
    requires
        carry(vstd::multiset::Multiset::empty(), from, steps, sum),
    ensures
        from == vstd::multiset::Multiset::<Amount>::empty(),
{
    broadcast use vstd::seq_lib::group_to_multiset_ensures;

    let none = vstd::multiset::Multiset::<Amount>::empty();
    let (listed, parts) = choose|
        listed: Seq<Amount>,
        parts: Seq<vstd::multiset::Multiset<Amount>>,
    | #[trigger] shown(none, from, listed, parts) && parted(listed, parts, steps, sum);
    if listed.len() > 0 {
        assert(listed.contains(listed[0]));
        assert(listed.to_multiset().count(listed[0]) > 0);
    }
}

/// Amounts carry themselves.
pub proof fn amounts_carry_themselves(terms: Seq<Amount>, sum: spec_fn(Seq<Amount>) -> Amount)
    ensures
        carry(terms.to_multiset(), terms.to_multiset(), 0, sum),
{
    let single = |a: Amount| vstd::multiset::Multiset::singleton(a);
    let parts = terms.map_values(single);
    let same = |a: Amount| a;
    list::pooling_single_values(terms, same);
    assert(terms.map_values(same) =~= terms);
    list::pooling_agrees(
        parts,
        terms,
        whole(),
        |a: Amount| vstd::multiset::Multiset::singleton(same(a)),
    );
    assert(shown(terms.to_multiset(), terms.to_multiset(), terms, parts));
    assert(parted(terms, parts, 0, sum));
}

/// The terms of a group.
pub open spec fn terms_of() -> spec_fn(Seq<Amount>) -> vstd::multiset::Multiset<Amount> {
    |terms: Seq<Amount>| terms.to_multiset()
}

/// The sums of groups carry what the groups' terms do together, in one step more.
pub proof fn sums_carry_their_groups(
    groups: Seq<Seq<Amount>>,
    sums: Seq<Amount>,
    from: vstd::multiset::Multiset<Amount>,
    steps: nat,
    sum: spec_fn(Seq<Amount>) -> Amount,
)
    requires
        sums.len() == groups.len(),
        forall|g: int| 0 <= g < groups.len() ==> #[trigger] sums[g] == sum(groups[g]),
        carry(list::pooled(groups, terms_of()), from, steps, sum),
    ensures
        carry(sums.to_multiset(), from, steps + 1, sum),
    decreases groups.len(),
{
    broadcast use vstd::seq_lib::group_to_multiset_ensures;

    if groups.len() == 0 {
        nothing_carries_no_more(from, steps, sum);
        assert(sums.to_multiset() =~= vstd::multiset::Multiset::empty());
        nothing_carries_nothing(steps + 1, sum);
    } else {
        let fewer = groups.drop_last();
        let last = groups.last();
        let others = list::pooled(fewer, terms_of());
        assert(list::pooled(groups, terms_of()) =~= last.to_multiset().add(others));
        let (parts, rest) = carrying_apart(last, others, from, steps, sum);
        let own = list::pooled(parts, whole());
        let value = sums.last();
        let before = sums.drop_last();
        assert(sums[groups.len() - 1] == sum(groups[groups.len() - 1]));
        a_sum_carries_its_terms(last, own, steps, sum);
        one_value_carries(value, own, steps + 1, sum);
        assert forall|g: int| 0 <= g < fewer.len() implies #[trigger] before[g] == sum(
            fewer[g],
        ) by {
            assert(sums[g] == sum(groups[g]));
        }
        sums_carry_their_groups(fewer, before, rest, steps, sum);
        carrying_together(
            before.to_multiset(),
            rest,
            vstd::multiset::Multiset::singleton(value),
            own,
            steps + 1,
            sum,
        );
        assert(sums =~= before.push(value));
        assert(before.to_multiset().add(vstd::multiset::Multiset::singleton(value))
            =~= sums.to_multiset());
        assert(rest.add(own) =~= from);
    }
}

/// Groups of amounts carry themselves.
pub proof fn groups_carry_themselves(
    groups: Seq<Seq<Amount>>,
    sum: spec_fn(Seq<Amount>) -> Amount,
)
    ensures
        carry(list::pooled(groups, terms_of()), list::pooled(groups, terms_of()), 0, sum),
    decreases groups.len(),
{
    if groups.len() == 0 {
        nothing_carries_nothing(0, sum);
    } else {
        let before = list::pooled(groups.drop_last(), terms_of());
        let own = groups.last().to_multiset();
        groups_carry_themselves(groups.drop_last(), sum);
        amounts_carry_themselves(groups.last(), sum);
        carrying_together(before, before, own, own, 0, sum);
    }
}

} // verus!
