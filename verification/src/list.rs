//! Finding, replacing and dropping rows of a list.
use vstd::prelude::*;

verus! {

/// The position of the first item that a test accepts.
pub open spec fn first_index<T>(items: Seq<T>, test: spec_fn(T) -> bool) -> Option<int>
    decreases items.len(),
{
    if items.len() == 0 {
        None
    } else {
        match first_index(items.drop_last(), test) {
            Some(i) => Some(i),
            None => if test(items.last()) {
                Some(items.len() - 1)
            } else {
                None
            },
        }
    }
}

/// The first item that a test accepts has none before it that the test accepts.
pub proof fn first_index_is_first<T>(items: Seq<T>, test: spec_fn(T) -> bool)
    ensures
        match first_index(items, test) {
            Some(i) => {
                &&& 0 <= i < items.len()
                &&& test(items[i])
                &&& forall|j: int| 0 <= j < i ==> !test(#[trigger] items[j])
            },
            None => forall|j: int| 0 <= j < items.len() ==> !test(#[trigger] items[j]),
        },
    decreases items.len(),
{
    if items.len() > 0 {
        first_index_is_first(items.drop_last(), test);
        assert forall|j: int| 0 <= j < items.len() - 1 implies items.drop_last()[j]
            == #[trigger] items[j] by {}
    }
}

/// A list with the first item that a test accepts replaced, or with the item
/// behind it where there is none: an update keeps a row's place.
pub open spec fn upserted<T>(items: Seq<T>, test: spec_fn(T) -> bool, item: T) -> Seq<T> {
    match first_index(items, test) {
        Some(i) => items.update(i, item),
        None => items.push(item),
    }
}

/// Being refused by a test.
pub open spec fn refused<T>(test: spec_fn(T) -> bool) -> spec_fn(T) -> bool {
    |item: T| !test(item)
}

/// A list without the items that a test accepts.
pub open spec fn without<T>(items: Seq<T>, test: spec_fn(T) -> bool) -> Seq<T> {
    items.filter(refused(test))
}

/// The position of the first item that `accepts` accepts.
pub fn position<T, F: Fn(&T) -> bool>(
    items: &Vec<T>,
    accepts: F,
    Ghost(test): Ghost<spec_fn(T) -> bool>,
) -> (res: Option<usize>)
    requires
        forall|item: &T| #[trigger] call_requires(accepts, (item,)),
        forall|item: &T, b: bool|
            #[trigger] call_ensures(accepts, (item,), b) ==> b == test(*item),
    ensures
        match first_index(items@, test) {
            Some(i) => res is Some && res->0 == i && 0 <= i < items@.len(),
            None => res is None,
        },
{
    proof {
        first_index_is_first(items@, test);
    }
    let mut i: usize = 0;
    while i < items.len()
        invariant
            i <= items.len(),
            forall|item: &T| #[trigger] call_requires(accepts, (item,)),
            forall|item: &T, b: bool|
                #[trigger] call_ensures(accepts, (item,), b) ==> b == test(*item),
            forall|j: int| 0 <= j < i ==> !test(#[trigger] items@[j]),
        decreases items.len() - i,
    {
        if accepts(&items[i]) {
            proof {
                first_index_is_first(items@, test);
                match first_index(items@, test) {
                    Some(k) => {
                        if k < i {
                            assert(!test(items@[k]));
                        }
                        if i < k {
                            assert(!test(items@[i as int]));
                        }
                    },
                    None => {
                        assert(!test(items@[i as int]));
                    },
                }
            }
            return Some(i);
        }
        i = i + 1;
    }
    None
}

/// Replace the first item that `accepts` accepts, or put the item last.
pub fn upsert<T, F: Fn(&T) -> bool>(
    items: &mut Vec<T>,
    item: T,
    accepts: F,
    Ghost(test): Ghost<spec_fn(T) -> bool>,
)
    requires
        forall|item: &T| #[trigger] call_requires(accepts, (item,)),
        forall|item: &T, b: bool|
            #[trigger] call_ensures(accepts, (item,), b) ==> b == test(*item),
    ensures
        final(items)@ == upserted(old(items)@, test, item),
{
    match position(items, accepts, Ghost(test)) {
        Some(i) => {
            items.set(i, item);
        },
        None => {
            items.push(item);
        },
    }
}

/// Drop the items that `accepts` accepts.
pub fn drop_where<T, F: Fn(&T) -> bool>(
    items: &mut Vec<T>,
    accepts: F,
    Ghost(test): Ghost<spec_fn(T) -> bool>,
)
    requires
        forall|item: &T| #[trigger] call_requires(accepts, (item,)),
        forall|item: &T, b: bool|
            #[trigger] call_ensures(accepts, (item,), b) ==> b == test(*item),
    ensures
        final(items)@ == without(old(items)@, test),
{
    let ghost all = items@;
    let ghost keep = refused(test);
    let ghost mut seen: int = 0;
    let mut i: usize = 0;
    proof {
        reveal(Seq::filter);
        assert(all.take(0).filter(keep) + all.skip(0) =~= all);
    }
    while i < items.len()
        invariant
            0 <= seen <= all.len(),
            keep == refused(test),
            forall|item: &T| #[trigger] call_requires(accepts, (item,)),
            forall|item: &T, b: bool|
                #[trigger] call_ensures(accepts, (item,), b) ==> b == test(*item),
            i == all.take(seen).filter(keep).len(),
            items@ == all.take(seen).filter(keep) + all.skip(seen),
        decreases items@.len() - i,
    {
        proof {
            reveal(Seq::filter);
            assert(all.take(seen + 1).drop_last() =~= all.take(seen));
            assert(all.take(seen + 1).last() == all[seen]);
            assert(items@[i as int] == all[seen]);
        }
        if accepts(&items[i]) {
            items.remove(i);
            proof {
                assert(items@ =~= all.take(seen + 1).filter(keep) + all.skip(seen + 1));
            }
        } else {
            i = i + 1;
            proof {
                assert(items@ =~= all.take(seen + 1).filter(keep) + all.skip(seen + 1));
            }
        }
        proof {
            seen = seen + 1;
        }
    }
    proof {
        if seen < all.len() {
            assert(items@.len() > i);
        }
        assert(all.take(seen) =~= all);
        assert(items@ =~= all.filter(keep));
    }
}

/// Nothing that a test accepts is left, and everything it refuses is.
pub proof fn without_drops_exactly<T>(items: Seq<T>, test: spec_fn(T) -> bool)
    ensures
        forall|item: T|
            #![trigger without(items, test).contains(item)]
            without(items, test).contains(item) <==> items.contains(item) && !test(item),
{
    let keep = refused(test);
    let left = without(items, test);
    assert forall|item: T|
        #![trigger left.contains(item)]
        left.contains(item) <==> items.contains(item) && !test(item) by {
        if left.contains(item) {
            let i = choose|i: int| 0 <= i < left.len() && left[i] == item;
            items.lemma_filter_pred(keep, i);
            items.lemma_filter_contains_rev(keep, item);
        }
        if items.contains(item) && !test(item) {
            let i = choose|i: int| 0 <= i < items.len() && items[i] == item;
            items.lemma_filter_contains(keep, i);
        }
    }
}

/// Dropping twice drops nothing more.
pub proof fn without_is_idempotent<T>(items: Seq<T>, test: spec_fn(T) -> bool)
    ensures
        without(without(items, test), test) == without(items, test),
    decreases items.len(),
{
    reveal(Seq::filter);
    let keep = refused(test);
    if items.len() > 0 {
        without_is_idempotent(items.drop_last(), test);
        let before = without(items.drop_last(), test);
        if keep(items.last()) {
            assert(before.push(items.last()).drop_last() =~= before);
        }
    }
}

/// No two items have the same key.
pub open spec fn keys_distinct<T, K>(items: Seq<T>, key_of: spec_fn(T) -> K) -> bool {
    forall|i: int, j: int|
        #![trigger items[i], items[j]]
        0 <= i < j < items.len() ==> key_of(items[i]) != key_of(items[j])
}

/// Saving an item under its key leaves no two items with the same key.
pub proof fn upserting_keeps_keys_distinct<T, K>(
    items: Seq<T>,
    key_of: spec_fn(T) -> K,
    test: spec_fn(T) -> bool,
    item: T,
)
    requires
        keys_distinct(items, key_of),
        forall|other: T| #[trigger] test(other) <==> key_of(other) == key_of(item),
    ensures
        keys_distinct(upserted(items, test, item), key_of),
{
    first_index_is_first(items, test);
    let after = upserted(items, test, item);
    assert forall|i: int, j: int|
        #![trigger after[i], after[j]]
        0 <= i < j < after.len() implies key_of(after[i]) != key_of(after[j]) by {
        match first_index(items, test) {
            Some(at) => {
                assert(test(items[at]));
                if i != at && j != at {
                    assert(key_of(items[i]) != key_of(items[j]));
                } else if i == at {
                    assert(key_of(items[at]) != key_of(items[j]));
                } else {
                    assert(key_of(items[i]) != key_of(items[at]));
                }
            },
            None => {
                assert(!test(items[i]));
                if j < items.len() {
                    assert(key_of(items[i]) != key_of(items[j]));
                }
            },
        }
    }
}

/// Changing an item but for its key leaves no two items with the same key.
pub proof fn updating_keeps_keys_distinct<T, K>(
    items: Seq<T>,
    key_of: spec_fn(T) -> K,
    at: int,
    item: T,
)
    requires
        keys_distinct(items, key_of),
        0 <= at < items.len(),
        key_of(item) == key_of(items[at]),
    ensures
        keys_distinct(items.update(at, item), key_of),
{
    let after = items.update(at, item);
    assert forall|i: int, j: int|
        #![trigger after[i], after[j]]
        0 <= i < j < after.len() implies key_of(after[i]) != key_of(after[j]) by {
        assert(key_of(items[i]) != key_of(items[j]));
    }
}

/// Dropping items leaves no two items with the same key.
pub proof fn dropping_keeps_keys_distinct<T, K>(
    items: Seq<T>,
    key_of: spec_fn(T) -> K,
    test: spec_fn(T) -> bool,
)
    requires
        keys_distinct(items, key_of),
    ensures
        keys_distinct(without(items, test), key_of),
    decreases items.len(),
{
    reveal(Seq::filter);
    if items.len() > 0 {
        let before = items.drop_last();
        let left = without(before, test);
        let after = without(items, test);
        assert(keys_distinct(before, key_of)) by {
            assert forall|i: int, j: int|
                #![trigger before[i], before[j]]
                0 <= i < j < before.len() implies key_of(before[i]) != key_of(before[j]) by {
                assert(key_of(items[i]) != key_of(items[j]));
            }
        }
        dropping_keeps_keys_distinct(before, key_of, test);
        without_drops_exactly(before, test);
        assert forall|i: int, j: int|
            #![trigger after[i], after[j]]
            0 <= i < j < after.len() implies key_of(after[i]) != key_of(after[j]) by {
            if j < left.len() {
                assert(key_of(left[i]) != key_of(left[j]));
            } else {
                assert(left.contains(left[i]));
                let k = choose|k: int| 0 <= k < before.len() && before[k] == left[i];
                assert(key_of(items[k]) != key_of(items[items.len() - 1]));
            }
        }
    }
}

/// Where no two items share a key, an item's own key finds that very item.
pub proof fn a_key_finds_its_item<T, K>(
    items: Seq<T>,
    key_of: spec_fn(T) -> K,
    test: spec_fn(T) -> bool,
    at: int,
)
    requires
        keys_distinct(items, key_of),
        0 <= at < items.len(),
        forall|other: T| #[trigger] test(other) <==> key_of(other) == key_of(items[at]),
    ensures
        first_index(items, test) == Some(at),
{
    first_index_is_first(items, test);
    assert(test(items[at]));
    match first_index(items, test) {
        Some(found) => {
            assert(test(items[found]));
            if found < at {
                assert(key_of(items[found]) != key_of(items[at]));
            }
            if at < found {
                assert(!test(items[at]));
            }
        },
        None => {
            assert(!test(items[at]));
        },
    }
}

/// Every item stands ahead of those behind it.
pub open spec fn in_order<T>(items: Seq<T>, ahead: spec_fn(T, T) -> bool) -> bool {
    forall|i: int, j: int|
        #![trigger items[i], items[j]]
        0 <= i < j < items.len() ==> ahead(items[i], items[j])
}

/// Leaving items out keeps the order of the rest.
pub proof fn filtering_keeps_order<T>(
    items: Seq<T>,
    ahead: spec_fn(T, T) -> bool,
    keep: spec_fn(T) -> bool,
)
    requires
        in_order(items, ahead),
    ensures
        in_order(items.filter(keep), ahead),
    decreases items.len(),
{
    reveal(Seq::filter);
    if items.len() > 0 {
        let before = items.drop_last();
        let kept = before.filter(keep);
        let after = items.filter(keep);
        assert(in_order(before, ahead)) by {
            assert forall|i: int, j: int|
                #![trigger before[i], before[j]]
                0 <= i < j < before.len() implies ahead(before[i], before[j]) by {
                assert(ahead(items[i], items[j]));
            }
        }
        filtering_keeps_order(before, ahead, keep);
        assert forall|i: int, j: int|
            #![trigger after[i], after[j]]
            0 <= i < j < after.len() implies ahead(after[i], after[j]) by {
            if j < kept.len() {
                assert(ahead(kept[i], kept[j]));
            } else {
                assert(kept.contains(kept[i]));
                before.lemma_filter_contains_rev(keep, kept[i]);
                let k = choose|k: int| 0 <= k < before.len() && before[k] == kept[i];
                assert(ahead(items[k], items[items.len() - 1]));
            }
        }
    }
}

/// Two lists that stand in the same strict order and hold the same items are the
/// same.
pub proof fn ordered_lists_agree<T>(one: Seq<T>, other: Seq<T>, ahead: spec_fn(T, T) -> bool)
    requires
        in_order(one, ahead),
        in_order(other, ahead),
        forall|a: T, b: T| #[trigger] ahead(a, b) ==> !ahead(b, a),
        forall|item: T| #[trigger] one.contains(item) <==> other.contains(item),
    ensures
        one == other,
    decreases one.len(),
{
    if one.len() == 0 {
        if other.len() > 0 {
            assert(other.contains(other[0]));
            assert(one.contains(other[0]));
        }
        assert(one =~= other);
    } else {
        let last = one[one.len() - 1];
        assert(one.contains(last));
        assert(other.contains(last));
        let end = other[other.len() - 1];
        assert(other.contains(end));
        assert(one.contains(end));
        let i = choose|i: int| 0 <= i < one.len() && one[i] == end;
        let j = choose|j: int| 0 <= j < other.len() && other[j] == last;
        if i < one.len() - 1 {
            assert(ahead(one[i], one[one.len() - 1]));
        }
        if j < other.len() - 1 {
            assert(ahead(other[j], other[other.len() - 1]));
        }
        assert(last == end);
        let fewer = one.drop_last();
        let rest = other.drop_last();
        assert forall|a: int, b: int|
            #![trigger fewer[a], fewer[b]]
            0 <= a < b < fewer.len() implies ahead(fewer[a], fewer[b]) by {
            assert(ahead(one[a], one[b]));
        }
        assert forall|a: int, b: int|
            #![trigger rest[a], rest[b]]
            0 <= a < b < rest.len() implies ahead(rest[a], rest[b]) by {
            assert(ahead(other[a], other[b]));
        }
        assert forall|item: T| #[trigger] fewer.contains(item) <==> rest.contains(item) by {
            if fewer.contains(item) {
                let k = choose|k: int| 0 <= k < fewer.len() && fewer[k] == item;
                assert(ahead(one[k], one[one.len() - 1]));
                assert(one.contains(item));
                assert(other.contains(item));
                let m = choose|m: int| 0 <= m < other.len() && other[m] == item;
                assert(rest[m] == item);
            }
            if rest.contains(item) {
                let k = choose|k: int| 0 <= k < rest.len() && rest[k] == item;
                assert(ahead(other[k], other[other.len() - 1]));
                assert(other.contains(item));
                assert(one.contains(item));
                let m = choose|m: int| 0 <= m < one.len() && one[m] == item;
                assert(fewer[m] == item);
            }
        }
        ordered_lists_agree(fewer, rest, ahead);
        assert(one =~= fewer.push(last));
        assert(other =~= rest.push(last));
    }
}

/// The parts of all items, together.
pub open spec fn pooled<T, V>(
    items: Seq<T>,
    part: spec_fn(T) -> vstd::multiset::Multiset<V>,
) -> vstd::multiset::Multiset<V>
    decreases items.len(),
{
    if items.len() == 0 {
        vstd::multiset::Multiset::empty()
    } else {
        pooled(items.drop_last(), part).add(part(items.last()))
    }
}

/// What lists one behind the other pool is what they pool apart.
pub proof fn pooling_splits<T, V>(
    one: Seq<T>,
    other: Seq<T>,
    part: spec_fn(T) -> vstd::multiset::Multiset<V>,
)
    ensures
        pooled(one + other, part) == pooled(one, part).add(pooled(other, part)),
    decreases other.len(),
{
    if other.len() == 0 {
        assert(one + other =~= one);
        assert(pooled(one, part).add(pooled(other, part)) =~= pooled(one, part));
    } else {
        assert((one + other).drop_last() =~= one + other.drop_last());
        pooling_splits(one, other.drop_last(), part);
        assert(pooled(one + other, part) =~= pooled(one, part).add(pooled(other, part)));
    }
}

proof fn lemma_pooled_is_a_fold<T, V>(
    items: Seq<T>,
    part: spec_fn(T) -> vstd::multiset::Multiset<V>,
    step: spec_fn(vstd::multiset::Multiset<V>, T) -> vstd::multiset::Multiset<V>,
)
    requires
        step == (|pool: vstd::multiset::Multiset<V>, item: T| pool.add(part(item))),
    ensures
        pooled(items, part) == items.fold_left(vstd::multiset::Multiset::empty(), step),
    decreases items.len(),
{
    if items.len() > 0 {
        lemma_pooled_is_a_fold(items.drop_last(), part, step);
    }
}

/// What items pool does not depend on their order.
pub proof fn pooling_ignores_order<T, V>(
    one: Seq<T>,
    other: Seq<T>,
    part: spec_fn(T) -> vstd::multiset::Multiset<V>,
)
    requires
        one.to_multiset() == other.to_multiset(),
    ensures
        pooled(one, part) == pooled(other, part),
{
    let step = |pool: vstd::multiset::Multiset<V>, item: T| pool.add(part(item));
    lemma_pooled_is_a_fold(one, part, step);
    lemma_pooled_is_a_fold(other, part, step);
    assert(vstd::seq_lib::commutative_foldl(step)) by {
        assert forall|x: T, y: T, pool: vstd::multiset::Multiset<V>| #[trigger]
            step(step(pool, x), y) == step(step(pool, y), x) by {
            assert(step(step(pool, x), y) =~= step(step(pool, y), x));
        }
    }
    vstd::seq_lib::lemma_fold_left_permutation(
        one,
        other,
        step,
        vstd::multiset::Multiset::empty(),
    );
}

/// Items whose parts agree pool the same.
pub proof fn pooling_agrees<T, U, V>(
    one: Seq<T>,
    other: Seq<U>,
    part: spec_fn(T) -> vstd::multiset::Multiset<V>,
    other_part: spec_fn(U) -> vstd::multiset::Multiset<V>,
)
    requires
        one.len() == other.len(),
        forall|i: int| 0 <= i < one.len() ==> part(#[trigger] one[i]) == other_part(other[i]),
    ensures
        pooled(one, part) == pooled(other, other_part),
    decreases one.len(),
{
    if one.len() > 0 {
        let fewer = one.drop_last();
        let rest = other.drop_last();
        assert forall|i: int| 0 <= i < fewer.len() implies part(#[trigger] fewer[i]) == other_part(
            rest[i],
        ) by {
            assert(fewer[i] == one[i]);
        }
        pooling_agrees(fewer, rest, part, other_part);
        assert(one[one.len() - 1] == one.last());
    }
}

/// The items whose key is `key`, among others.
pub open spec fn keyed_as<T, K>(key_of: spec_fn(T) -> K, key: K) -> spec_fn(T) -> bool {
    |item: T| key_of(item) == key
}

/// What the values of the items under each of `keys` are together.
pub open spec fn collected<T, K, V>(
    items: Seq<T>,
    key_of: spec_fn(T) -> K,
    value_of: spec_fn(T) -> V,
    keys: Seq<K>,
) -> vstd::multiset::Multiset<V>
    decreases keys.len(),
{
    if keys.len() == 0 {
        vstd::multiset::Multiset::empty()
    } else {
        collected(items, key_of, value_of, keys.drop_last()).add(
            items.filter(keyed_as(key_of, keys.last())).map_values(value_of).to_multiset(),
        )
    }
}

/// Splitting items by their key loses none and counts none twice: where no key
/// is listed twice and every item's key is listed, the values of the parts
/// together are the values of the items.
pub proof fn splitting_keeps_every_item<T, K, V>(
    items: Seq<T>,
    key_of: spec_fn(T) -> K,
    value_of: spec_fn(T) -> V,
    keys: Seq<K>,
)
    requires
        keys.no_duplicates(),
        forall|i: int| 0 <= i < items.len() ==> keys.contains(key_of(#[trigger] items[i])),
    ensures
        collected(items, key_of, value_of, keys) == items.map_values(value_of).to_multiset(),
    decreases items.len(),
{
    broadcast use vstd::seq_lib::group_to_multiset_ensures;

    if items.len() == 0 {
        lemma_collected_of_none(items, key_of, value_of, keys);
        assert(items.map_values(value_of).to_multiset() =~= vstd::multiset::Multiset::empty());
    } else {
        let before = items.drop_last();
        assert forall|i: int| 0 <= i < before.len() implies keys.contains(
            key_of(#[trigger] before[i]),
        ) by {
            assert(before[i] == items[i]);
        }
        splitting_keeps_every_item(before, key_of, value_of, keys);
        lemma_collected_push(before, items.last(), key_of, value_of, keys);
        assert(before.push(items.last()) =~= items);
        assert(items.map_values(value_of) =~= before.map_values(value_of).push(
            value_of(items.last()),
        ));
        assert(keys.contains(key_of(items[items.len() - 1])));
    }
}

proof fn lemma_collected_of_none<T, K, V>(
    items: Seq<T>,
    key_of: spec_fn(T) -> K,
    value_of: spec_fn(T) -> V,
    keys: Seq<K>,
)
    requires
        items.len() == 0,
    ensures
        collected(items, key_of, value_of, keys) == vstd::multiset::Multiset::<V>::empty(),
    decreases keys.len(),
{
    broadcast use vstd::seq_lib::group_to_multiset_ensures;

    if keys.len() > 0 {
        lemma_collected_of_none(items, key_of, value_of, keys.drop_last());
        reveal(Seq::filter);
        assert(items.filter(keyed_as(key_of, keys.last())) =~= items);
        assert(collected(items, key_of, value_of, keys)
            =~= vstd::multiset::Multiset::<V>::empty());
    }
}

/// One more item goes under its own key, and under no other.
proof fn lemma_collected_push<T, K, V>(
    items: Seq<T>,
    item: T,
    key_of: spec_fn(T) -> K,
    value_of: spec_fn(T) -> V,
    keys: Seq<K>,
)
    requires
        keys.no_duplicates(),
    ensures
        collected(items.push(item), key_of, value_of, keys) == if keys.contains(key_of(item)) {
            collected(items, key_of, value_of, keys).insert(value_of(item))
        } else {
            collected(items, key_of, value_of, keys)
        },
    decreases keys.len(),
{
    broadcast use vstd::seq_lib::group_to_multiset_ensures;

    if keys.len() > 0 {
        let rest = keys.drop_last();
        let test = keyed_as(key_of, keys.last());
        lemma_collected_push(items, item, key_of, value_of, rest);
        reveal(Seq::filter);
        assert(items.push(item).drop_last() =~= items);
        if key_of(item) == keys.last() {
            assert(keys.contains(key_of(item))) by {
                assert(keys[keys.len() - 1] == key_of(item));
            }
            assert(!rest.contains(key_of(item))) by {
                if rest.contains(key_of(item)) {
                    let i = choose|i: int| 0 <= i < rest.len() && rest[i] == key_of(item);
                    assert(keys[i] == keys[keys.len() - 1]);
                }
            }
            assert(items.push(item).filter(test) == items.filter(test).push(item));
            assert(items.push(item).filter(test).map_values(value_of) =~= items.filter(
                test,
            ).map_values(value_of).push(value_of(item)));
            assert(collected(items.push(item), key_of, value_of, keys) =~= collected(
                items,
                key_of,
                value_of,
                keys,
            ).insert(value_of(item)));
        } else {
            assert(items.push(item).filter(test) == items.filter(test));
            if keys.contains(key_of(item)) {
                let i = choose|i: int| 0 <= i < keys.len() && keys[i] == key_of(item);
                assert(rest[i] == key_of(item));
                assert(collected(items.push(item), key_of, value_of, keys) =~= collected(
                    items,
                    key_of,
                    value_of,
                    keys,
                ).insert(value_of(item)));
            } else {
                assert(!rest.contains(key_of(item))) by {
                    if rest.contains(key_of(item)) {
                        let i = choose|i: int| 0 <= i < rest.len() && rest[i] == key_of(item);
                        assert(keys[i] == key_of(item));
                    }
                }
            }
        }
    }
}

/// What the items under each key pool.
pub open spec fn pooled_under<T, K, V>(
    items: Seq<T>,
    key_of: spec_fn(T) -> K,
    part: spec_fn(T) -> vstd::multiset::Multiset<V>,
) -> spec_fn(K) -> vstd::multiset::Multiset<V> {
    |key: K| pooled(items.filter(keyed_as(key_of, key)), part)
}

/// One more item is pooled under its own key, and under no other.
proof fn lemma_pooled_under_push<T, K, V>(
    items: Seq<T>,
    item: T,
    key_of: spec_fn(T) -> K,
    part: spec_fn(T) -> vstd::multiset::Multiset<V>,
    keys: Seq<K>,
)
    requires
        keys.no_duplicates(),
    ensures
        pooled(keys, pooled_under(items.push(item), key_of, part)) == (if keys.contains(
            key_of(item),
        ) {
            pooled(keys, pooled_under(items, key_of, part)).add(part(item))
        } else {
            pooled(keys, pooled_under(items, key_of, part))
        }),
    decreases keys.len(),
{
    let before = pooled_under(items, key_of, part);
    let after = pooled_under(items.push(item), key_of, part);
    if keys.len() > 0 {
        let fewer = keys.drop_last();
        let last = keys.last();
        assert(fewer.no_duplicates()) by {
            assert forall|i: int, j: int|
                0 <= i < fewer.len() && 0 <= j < fewer.len() && i != j implies fewer[i]
                != fewer[j] by {
                assert(keys[i] != keys[j]);
            }
        }
        lemma_pooled_under_push(items, item, key_of, part, fewer);
        reveal(Seq::filter);
        let test = keyed_as(key_of, last);
        assert(items.push(item).drop_last() =~= items);
        let held = items.filter(test);
        if test(item) {
            assert(held.push(item).drop_last() =~= held);
            assert(after(last) == before(last).add(part(item)));
            assert(keys[keys.len() - 1] == key_of(item));
            if fewer.contains(key_of(item)) {
                let i = choose|i: int| 0 <= i < fewer.len() && fewer[i] == key_of(item);
                assert(keys[i] != keys[keys.len() - 1]);
            }
            assert(pooled(keys, after) =~= pooled(keys, before).add(part(item)));
        } else {
            assert(after(last) == before(last));
            if keys.contains(key_of(item)) {
                let i = choose|i: int| 0 <= i < keys.len() && keys[i] == key_of(item);
                assert(fewer[i] == key_of(item));
                assert(pooled(keys, after) =~= pooled(keys, before).add(part(item)));
            } else if fewer.contains(key_of(item)) {
                let i = choose|i: int| 0 <= i < fewer.len() && fewer[i] == key_of(item);
                assert(keys[i] == key_of(item));
            }
        }
    }
}

/// Pooling items key by key pools what pooling them at once does: where no key is
/// listed twice and every item's key is listed.
pub proof fn pooling_by_key_keeps_every_part<T, K, V>(
    items: Seq<T>,
    key_of: spec_fn(T) -> K,
    part: spec_fn(T) -> vstd::multiset::Multiset<V>,
    keys: Seq<K>,
)
    requires
        keys.no_duplicates(),
        forall|i: int| 0 <= i < items.len() ==> keys.contains(key_of(#[trigger] items[i])),
    ensures
        pooled(keys, pooled_under(items, key_of, part)) == pooled(items, part),
    decreases items.len(),
{
    if items.len() == 0 {
        lemma_nothing_pooled(items, key_of, part, keys);
    } else {
        let before = items.drop_last();
        assert forall|i: int| 0 <= i < before.len() implies keys.contains(
            key_of(#[trigger] before[i]),
        ) by {
            assert(before[i] == items[i]);
        }
        pooling_by_key_keeps_every_part(before, key_of, part, keys);
        lemma_pooled_under_push(before, items.last(), key_of, part, keys);
        assert(before.push(items.last()) =~= items);
        assert(keys.contains(key_of(items[items.len() - 1])));
    }
}

proof fn lemma_nothing_pooled<T, K, V>(
    items: Seq<T>,
    key_of: spec_fn(T) -> K,
    part: spec_fn(T) -> vstd::multiset::Multiset<V>,
    keys: Seq<K>,
)
    requires
        items.len() == 0,
    ensures
        pooled(keys, pooled_under(items, key_of, part)) == vstd::multiset::Multiset::<V>::empty(),
    decreases keys.len(),
{
    if keys.len() > 0 {
        lemma_nothing_pooled(items, key_of, part, keys.drop_last());
        reveal(Seq::filter);
        assert(items.filter(keyed_as(key_of, keys.last())) =~= items);
        assert(pooled(keys, pooled_under(items, key_of, part))
            =~= vstd::multiset::Multiset::<V>::empty());
    }
}

/// Items that are each one value pool the values.
pub proof fn pooling_single_values<T, V>(items: Seq<T>, value_of: spec_fn(T) -> V)
    ensures
        pooled(items, |item: T| vstd::multiset::Multiset::singleton(value_of(item)))
            == items.map_values(value_of).to_multiset(),
    decreases items.len(),
{
    broadcast use vstd::seq_lib::group_to_multiset_ensures;

    let part = |item: T| vstd::multiset::Multiset::singleton(value_of(item));
    if items.len() == 0 {
        assert(items.map_values(value_of).to_multiset() =~= vstd::multiset::Multiset::empty());
    } else {
        let before = items.drop_last();
        pooling_single_values(before, value_of);
        assert(items.map_values(value_of) =~= before.map_values(value_of).push(
            value_of(items.last()),
        ));
        assert(pooled(items, part) =~= items.map_values(value_of).to_multiset());
    }
}

} // verus!
