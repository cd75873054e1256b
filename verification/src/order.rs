//! Orders: how text and bucket keys compare, and how rows are ranked.
use vstd::prelude::*;


verus! {

/// `a` and `b` agree before position `k`, and `a` is the smaller at `k`:
/// either it ends there while `b` goes on, or its byte there is smaller.
pub open spec fn splits_at(a: Seq<u8>, b: Seq<u8>, k: int) -> bool {
    &&& 0 <= k <= a.len()
    &&& k < b.len()
    &&& forall|i: int| 0 <= i < k ==> a[i] == b[i]
    &&& (k == a.len() || a[k] < b[k])
}

/// The lexicographic order of byte strings.
pub open spec fn bytes_lt(a: Seq<u8>, b: Seq<u8>) -> bool {
    exists|k: int| splits_at(a, b, k)
}

/// The order of text: that of its UTF-8 bytes.
pub open spec fn text_lt(a: Seq<char>, b: Seq<char>) -> bool {
    bytes_lt(vstd::utf8::encode_utf8(a), vstd::utf8::encode_utf8(b))
}

/// Equal text is text with equal bytes.
pub proof fn lemma_text_bytes(a: Seq<char>, b: Seq<char>)
    ensures
        a == b <==> vstd::utf8::encode_utf8(a) == vstd::utf8::encode_utf8(b),
{
    vstd::utf8::encode_utf8_decode_utf8(a);
    vstd::utf8::encode_utf8_decode_utf8(b);
}

/// Byte strings are compared by a strict order: nothing precedes itself, and
/// of two at most one precedes the other.
pub proof fn lemma_bytes_lt_asymmetric(a: Seq<u8>, b: Seq<u8>)
    requires
        bytes_lt(a, b),
    ensures
        !bytes_lt(b, a),
        a != b,
{
    let k = choose|k: int| splits_at(a, b, k);
    if bytes_lt(b, a) {
        let j = choose|j: int| splits_at(b, a, j);
        if j < k {
            assert(a[j] == b[j]);
        } else if k < j {
            assert(a[k] == b[k]);
        }
    }
}

/// The order of byte strings is transitive.
pub proof fn lemma_bytes_lt_transitive(a: Seq<u8>, b: Seq<u8>, c: Seq<u8>)
    requires
        bytes_lt(a, b),
        bytes_lt(b, c),
    ensures
        bytes_lt(a, c),
{
    let k = choose|k: int| splits_at(a, b, k);
    let j = choose|j: int| splits_at(b, c, j);
    let m = if k < j {
        k
    } else {
        j
    };
    assert(forall|i: int| 0 <= i < m ==> a[i] == b[i] && b[i] == c[i]);
    assert(splits_at(a, c, m));
}

/// Two byte strings that differ compare one way or the other.
pub proof fn lemma_bytes_total(a: Seq<u8>, b: Seq<u8>)
    ensures
        a == b || bytes_lt(a, b) || bytes_lt(b, a),
{
    if a != b {
        let k = lemma_agreement(a, b, 0);
        if k == a.len() || (k < b.len() && a[k] < b[k]) {
            if k == b.len() {
                assert(a =~= b);
            }
            assert(splits_at(a, b, k));
        } else {
            assert(splits_at(b, a, k));
        }
    }
}

/// How far two byte strings agree.
proof fn lemma_agreement(a: Seq<u8>, b: Seq<u8>, from: int) -> (k: int)
    requires
        0 <= from <= a.len(),
        from <= b.len(),
        forall|i: int| 0 <= i < from ==> a[i] == b[i],
    ensures
        0 <= k <= a.len(),
        k <= b.len(),
        forall|i: int| 0 <= i < k ==> a[i] == b[i],
        k == a.len() || k == b.len() || a[k] != b[k],
    decreases a.len() - from,
{
    if from < a.len() && from < b.len() && a[from] == b[from] {
        lemma_agreement(a, b, from + 1)
    } else {
        from
    }
}

/// Two texts that differ compare one way or the other.
pub proof fn lemma_text_total(a: Seq<char>, b: Seq<char>)
    ensures
        a == b || text_lt(a, b) || text_lt(b, a),
{
    lemma_text_bytes(a, b);
    lemma_bytes_total(vstd::utf8::encode_utf8(a), vstd::utf8::encode_utf8(b));
}

/// How one value stands to another.
#[derive(Clone, Copy, PartialEq, Eq, Structural, Debug)]
pub enum Side {
    Before,
    Same,
    After,
}

/// Compare two pieces of text by their bytes.
pub fn text_side(a: &str, b: &str) -> (side: Side)
    ensures
        side == Side::Before <==> text_lt(a@, b@),
        side == Side::Same <==> a@ == b@,
        side == Side::After <==> text_lt(b@, a@),
{
    let x: &[u8] = a.as_bytes();
    let y: &[u8] = b.as_bytes();
    let mut i: usize = 0;
    proof {
        lemma_text_bytes(a@, b@);
    }
    while i < x.len() && i < y.len() && x[i] == y[i]
        invariant
            i <= x.len(),
            i <= y.len(),
            forall|j: int| 0 <= j < i ==> x[j] == y[j],
        decreases x.len() - i,
    {
        i = i + 1;
    }
    if i < y.len() && (i == x.len() || x[i] < y[i]) {
        proof {
            assert(splits_at(x@, y@, i as int));
            lemma_bytes_lt_asymmetric(x@, y@);
        }
        Side::Before
    } else if i < x.len() {
        proof {
            assert(splits_at(y@, x@, i as int));
            lemma_bytes_lt_asymmetric(y@, x@);
        }
        Side::After
    } else {
        proof {
            assert(x@ =~= y@);
            assert(!bytes_lt(x@, y@)) by {
                if bytes_lt(x@, y@) {
                    lemma_bytes_lt_asymmetric(x@, y@);
                }
            }
        }
        Side::Same
    }
}


// ==================== Bucket keys ====================

/// One column of a bucket key, `None` for a column without a value.
pub type Part = Option<Seq<char>>;

/// A column without a value precedes one with a value; two values compare as
/// text.
pub open spec fn part_lt(a: Part, b: Part) -> bool {
    match (a, b) {
        (None, None) => false,
        (None, Some(_)) => true,
        (Some(_), None) => false,
        (Some(x), Some(y)) => text_lt(x, y),
    }
}

/// `a` and `b` agree in the columns before `k`, and `a` is the smaller at
/// column `k`.
pub open spec fn key_splits_at(a: Seq<Part>, b: Seq<Part>, k: int) -> bool {
    &&& 0 <= k <= a.len()
    &&& k < b.len()
    &&& forall|i: int| 0 <= i < k ==> a[i] == b[i]
    &&& (k == a.len() || part_lt(a[k], b[k]))
}

/// The order of bucket keys: column by column, the first difference decides.
pub open spec fn key_lt(a: Seq<Part>, b: Seq<Part>) -> bool {
    exists|k: int| key_splits_at(a, b, k)
}

pub proof fn lemma_part_lt_asymmetric(a: Part, b: Part)
    requires
        part_lt(a, b),
    ensures
        !part_lt(b, a),
        a != b,
{
    if let (Some(x), Some(y)) = (a, b) {
        lemma_bytes_lt_asymmetric(vstd::utf8::encode_utf8(x), vstd::utf8::encode_utf8(y));
    }
}

pub proof fn lemma_key_lt_asymmetric(a: Seq<Part>, b: Seq<Part>)
    requires
        key_lt(a, b),
    ensures
        !key_lt(b, a),
        a != b,
{
    let k = choose|k: int| key_splits_at(a, b, k);
    if k < a.len() {
        lemma_part_lt_asymmetric(a[k], b[k]);
    }
    if key_lt(b, a) {
        let j = choose|j: int| key_splits_at(b, a, j);
        if j < b.len() {
            lemma_part_lt_asymmetric(b[j], a[j]);
        }
        if j < k {
            assert(a[j] == b[j]);
        } else if k < j {
            assert(a[k] == b[k]);
        }
    }
}

pub proof fn lemma_key_lt_transitive(a: Seq<Part>, b: Seq<Part>, c: Seq<Part>)
    requires
        key_lt(a, b),
        key_lt(b, c),
    ensures
        key_lt(a, c),
{
    let k = choose|k: int| key_splits_at(a, b, k);
    let j = choose|j: int| key_splits_at(b, c, j);
    let m = if k < j {
        k
    } else {
        j
    };
    assert(forall|i: int| 0 <= i < m ==> a[i] == b[i] && b[i] == c[i]);
    if m < a.len() && k == j {
        match (a[m], b[m], c[m]) {
            (Some(x), Some(y), Some(z)) => {
                lemma_bytes_lt_transitive(vstd::utf8::encode_utf8(x), vstd::utf8::encode_utf8(y), vstd::utf8::encode_utf8(z));
            },
            _ => {},
        }
    }
    assert(key_splits_at(a, c, m));
}

/// The key of one bucket: its columns, left to right.
pub struct BucketKey {
    pub parts: Vec<Option<String>>,
}

impl View for BucketKey {
    type V = Seq<Part>;

    open spec fn view(&self) -> Seq<Part> {
        Seq::new(self.parts@.len(), |i: int| part_view(self.parts@[i]))
    }
}

pub open spec fn part_view(part: Option<String>) -> Part {
    match part {
        Some(text) => Some(text@),
        None => None,
    }
}

fn part_side(a: &Option<String>, b: &Option<String>) -> (side: Side)
    ensures
        side == Side::Before <==> part_lt(part_view(*a), part_view(*b)),
        side == Side::Same <==> part_view(*a) == part_view(*b),
        side == Side::After <==> part_lt(part_view(*b), part_view(*a)),
{
    match (a, b) {
        (None, None) => Side::Same,
        (None, Some(_)) => Side::Before,
        (Some(_), None) => Side::After,
        (Some(x), Some(y)) => text_side(x.as_str(), y.as_str()),
    }
}

/// Compare two bucket keys column by column.
pub fn key_side(a: &BucketKey, b: &BucketKey) -> (side: Side)
    ensures
        side == Side::Before <==> key_lt(a@, b@),
        side == Side::Same <==> a@ == b@,
        side == Side::After <==> key_lt(b@, a@),
{
    let mut i: usize = 0;
    while i < a.parts.len() && i < b.parts.len()
        invariant
            i <= a.parts.len(),
            i <= b.parts.len(),
            forall|j: int| 0 <= j < i ==> a@[j] == b@[j],
        decreases a.parts.len() - i,
    {
        match part_side(&a.parts[i], &b.parts[i]) {
            Side::Before => {
                proof {
                    assert(key_splits_at(a@, b@, i as int));
                    lemma_key_lt_asymmetric(a@, b@);
                }
                return Side::Before;
            },
            Side::After => {
                proof {
                    assert(key_splits_at(b@, a@, i as int));
                    lemma_key_lt_asymmetric(b@, a@);
                }
                return Side::After;
            },
            Side::Same => {},
        }
        i = i + 1;
    }
    if i < b.parts.len() {
        proof {
            assert(key_splits_at(a@, b@, i as int));
            lemma_key_lt_asymmetric(a@, b@);
        }
        Side::Before
    } else if i < a.parts.len() {
        proof {
            assert(key_splits_at(b@, a@, i as int));
            lemma_key_lt_asymmetric(b@, a@);
        }
        Side::After
    } else {
        proof {
            assert(a@ =~= b@);
            assert(!key_lt(a@, a@)) by {
                if key_lt(a@, a@) {
                    lemma_key_lt_asymmetric(a@, a@);
                }
            }
        }
        Side::Same
    }
}

// ==================== Grouping ====================

/// One bucket of a grouping: its key, and the positions of the rows in it.
pub struct Group {
    pub key: BucketKey,
    pub members: Vec<usize>,
}

/// The positions in `keys` that hold `key`, in ascending order.
pub open spec fn positions_of(keys: Seq<Seq<Part>>, key: Seq<Part>) -> Seq<int>
    decreases keys.len(),
{
    if keys.len() == 0 {
        Seq::empty()
    } else {
        let before = positions_of(keys.drop_last(), key);
        if keys.last() == key {
            before.push(keys.len() - 1)
        } else {
            before
        }
    }
}

/// The keys that `groups` hold, in their order.
pub open spec fn group_keys(groups: Seq<Group>) -> Seq<Seq<Part>> {
    groups.map_values(|g: Group| g.key@)
}

pub open spec fn key_views(keys: Seq<BucketKey>) -> Seq<Seq<Part>> {
    keys.map_values(|k: BucketKey| k@)
}

/// The keys ascend, none occurs twice.
pub open spec fn ascending(keys: Seq<Seq<Part>>) -> bool {
    forall|i: int, j: int| 0 <= i < j < keys.len() ==> #[trigger] key_lt(keys[i], keys[j])
}

/// The members of a group as positions.
pub open spec fn member_positions(group: Group) -> Seq<int> {
    group.members@.map_values(|m: usize| m as int)
}

/// `groups` partition the rows whose keys are `keys`: one group per key that
/// occurs, in key order, holding the positions of its rows in row order.
pub open spec fn partitions(groups: Seq<Group>, keys: Seq<Seq<Part>>) -> bool {
    &&& ascending(group_keys(groups))
    &&& forall|g: int|
        0 <= g < groups.len() ==> {
            &&& #[trigger] member_positions(groups[g]) == positions_of(keys, groups[g].key@)
            &&& groups[g].members@.len() > 0
        }
    &&& forall|i: int| 0 <= i < keys.len() ==> group_keys(groups).contains(#[trigger] keys[i])
}

/// Every position of `keys` is listed under its own key, and only there.
pub proof fn lemma_positions_of(keys: Seq<Seq<Part>>, key: Seq<Part>)
    ensures
        forall|i: int|
            #![trigger positions_of(keys, key).contains(i)]
            positions_of(keys, key).contains(i) <==> (0 <= i < keys.len() && keys[i] == key),
        forall|a: int, b: int|
            0 <= a < b < positions_of(keys, key).len() ==> positions_of(keys, key)[a]
                < positions_of(keys, key)[b],
        forall|a: int|
            0 <= a < positions_of(keys, key).len() ==> 0 <= #[trigger] positions_of(keys, key)[a]
                < keys.len(),
    decreases keys.len(),
{
    if keys.len() > 0 {
        let before = positions_of(keys.drop_last(), key);
        lemma_positions_of(keys.drop_last(), key);
        let all = positions_of(keys, key);
        assert forall|i: int|
            #![trigger all.contains(i)]
            all.contains(i) <==> (0 <= i < keys.len() && keys[i] == key) by {
            if all.contains(i) {
                let a = choose|a: int| 0 <= a < all.len() && all[a] == i;
                if a < before.len() {
                    assert(before[a] == i);
                    assert(before.contains(i));
                }
            }
            if 0 <= i < keys.len() - 1 && keys[i] == key {
                assert(keys.drop_last()[i] == key);
                assert(before.contains(i));
                let a = choose|a: int| 0 <= a < before.len() && before[a] == i;
                assert(all[a] == i);
            }
            if i == keys.len() - 1 && keys[i] == key {
                assert(all[before.len() as int] == i);
            }
        }
    }
}


/// A copy of an optional piece of text.
pub fn clone_text(text: &Option<String>) -> (res: Option<String>)
    ensures
        res == *text,
{
    match text {
        Some(text) => Some(text.clone()),
        None => None,
    }
}

impl Clone for BucketKey {
    fn clone(&self) -> (res: Self)
        ensures
            res@ == self@,
    {
        let mut parts: Vec<Option<String>> = Vec::new();
        let mut i: usize = 0;
        while i < self.parts.len()
            invariant
                i <= self.parts.len(),
                parts@ == self.parts@.take(i as int),
            decreases self.parts.len() - i,
        {
            parts.push(clone_text(&self.parts[i]));
            i = i + 1;
            proof {
                assert(self.parts@.take(i as int) =~= self.parts@.take(i - 1).push(
                    self.parts@[i - 1],
                ));
            }
        }
        let res = BucketKey { parts };
        proof {
            assert(res@ =~= self@);
        }
        res
    }
}

proof fn lemma_positions_push(seen: Seq<Seq<Part>>, key: Seq<Part>, other: Seq<Part>)
    ensures
        positions_of(seen.push(key), other) == (if other == key {
            positions_of(seen, other).push(seen.len() as int)
        } else {
            positions_of(seen, other)
        }),
{
    assert(seen.push(key).drop_last() =~= seen);
    assert(seen.push(key).last() == key);
}

proof fn lemma_extend_group(
    before: Seq<Group>,
    after: Seq<Group>,
    seen: Seq<Seq<Part>>,
    key: Seq<Part>,
    p: int,
)
    requires
        partitions(before, seen),
        seen.len() <= usize::MAX,
        0 <= p < before.len(),
        before[p].key@ == key,
        after.len() == before.len(),
        after[p].key == before[p].key,
        after[p].members@ == before[p].members@.push(seen.len() as usize),
        forall|q: int| 0 <= q < before.len() && q != p ==> after[q] == before[q],
    ensures
        partitions(after, seen.push(key)),
{
    let keys = group_keys(before);
    assert(group_keys(after) =~= keys);
    assert forall|g: int| 0 <= g < after.len() implies {
        &&& #[trigger] member_positions(after[g]) == positions_of(seen.push(key), after[g].key@)
        &&& after[g].members@.len() > 0
    } by {
        lemma_positions_push(seen, key, after[g].key@);
        assert(member_positions(before[g]) == positions_of(seen, before[g].key@));
        if g == p {
            assert(member_positions(after[g]) =~= member_positions(before[g]).push(
                seen.len() as int,
            ));
        } else {
            if g < p {
                assert(key_lt(keys[g], keys[p]));
                lemma_key_lt_asymmetric(keys[g], keys[p]);
            } else {
                assert(key_lt(keys[p], keys[g]));
                lemma_key_lt_asymmetric(keys[p], keys[g]);
            }
            assert(after[g].key@ != key);
        }
    }
    assert forall|i: int| 0 <= i < seen.push(key).len() implies group_keys(after).contains(
        #[trigger] seen.push(key)[i],
    ) by {
        if i < seen.len() {
            assert(keys.contains(seen[i]));
        } else {
            assert(keys[p] == key);
        }
    }
}

proof fn lemma_insert_group(
    before: Seq<Group>,
    after: Seq<Group>,
    seen: Seq<Seq<Part>>,
    key: Seq<Part>,
    p: int,
)
    requires
        partitions(before, seen),
        seen.len() <= usize::MAX,
        0 <= p <= before.len(),
        forall|q: int| 0 <= q < p ==> key_lt(#[trigger] group_keys(before)[q], key),
        p < before.len() ==> key_lt(key, group_keys(before)[p]),
        after.len() == before.len() + 1,
        after == before.insert(p, after[p]),
        after[p].key@ == key,
        after[p].members@ == seq![seen.len() as usize],
    ensures
        partitions(after, seen.push(key)),
{
    let old_keys = group_keys(before);
    let new_keys = group_keys(after);
    assert forall|q: int| p <= q < before.len() implies key_lt(key, #[trigger] old_keys[q]) by {
        if p < q {
            assert(key_lt(old_keys[p], old_keys[q]));
            lemma_key_lt_transitive(key, old_keys[p], old_keys[q]);
        }
    }
    assert(forall|q: int| 0 <= q < p ==> new_keys[q] == old_keys[q]);
    assert(forall|q: int| p < q < after.len() ==> new_keys[q] == old_keys[q - 1]);
    assert forall|i: int, j: int| 0 <= i < j < new_keys.len() implies #[trigger] key_lt(
        new_keys[i],
        new_keys[j],
    ) by {
        if i != p && j != p {
            let a = if i < p {
                i
            } else {
                i - 1
            };
            let b = if j < p {
                j
            } else {
                j - 1
            };
            assert(key_lt(old_keys[a], old_keys[b]));
        }
    }
    assert forall|q: int| 0 <= q < before.len() implies #[trigger] old_keys[q] != key by {
        if q < p {
            lemma_key_lt_asymmetric(old_keys[q], key);
        } else {
            lemma_key_lt_asymmetric(key, old_keys[q]);
        }
    }
    lemma_positions_of(seen, key);
    assert(positions_of(seen, key).len() == 0) by {
        if positions_of(seen, key).len() > 0 {
            let i = positions_of(seen, key)[0];
            assert(positions_of(seen, key).contains(i));
            assert(seen[i] == key);
            assert(old_keys.contains(seen[i]));
        }
    }
    assert forall|g: int| 0 <= g < after.len() implies {
        &&& #[trigger] member_positions(after[g]) == positions_of(seen.push(key), after[g].key@)
        &&& after[g].members@.len() > 0
    } by {
        lemma_positions_push(seen, key, after[g].key@);
        if g == p {
            assert(member_positions(after[g]) =~= seq![seen.len() as int]);
            assert(positions_of(seen, key) =~= Seq::empty());
            assert(positions_of(seen.push(key), key) =~= seq![seen.len() as int]);
        } else {
            let b = if g < p {
                g
            } else {
                g - 1
            };
            assert(after[g] == before[b]);
            assert(member_positions(before[b]) == positions_of(seen, before[b].key@));
            assert(old_keys[b] == before[b].key@);
        }
    }
    assert forall|i: int| 0 <= i < seen.push(key).len() implies new_keys.contains(
        #[trigger] seen.push(key)[i],
    ) by {
        if i < seen.len() {
            assert(old_keys.contains(seen[i]));
            let q = choose|q: int| 0 <= q < old_keys.len() && old_keys[q] == seen[i];
            if q < p {
                assert(new_keys[q] == seen[i]);
            } else {
                assert(new_keys[q + 1] == seen[i]);
            }
        } else {
            assert(new_keys[p] == key);
        }
    }
}

/// Group rows by key: one group per key that occurs, in key order, each with
/// the positions of its rows in row order.
pub fn group_by_key(keys: &Vec<BucketKey>) -> (groups: Vec<Group>)
    ensures
        partitions(groups@, key_views(keys@)),
{
    let mut groups: Vec<Group> = Vec::new();
    let mut i: usize = 0;
    let ghost views = key_views(keys@);
    while i < keys.len()
        invariant
            i <= keys.len(),
            views == key_views(keys@),
            partitions(groups@, views.take(i as int)),
        decreases keys.len() - i,
    {
        let ghost before = groups@;
        let ghost seen = views.take(i as int);
        let ghost key = views[i as int];
        let mut p: usize = 0;
        let mut found: bool = false;
        while p < groups.len() && !found
            invariant
                p <= groups.len(),
                i < keys.len(),
                groups@ == before,
                views == key_views(keys@),
                key == views[i as int],
                ascending(group_keys(before)),
                forall|q: int| 0 <= q < p ==> key_lt(#[trigger] group_keys(before)[q], key),
                found ==> p < groups.len() && !key_lt(group_keys(before)[p as int], key),
            decreases groups.len() - p + (if found { 0int } else { 1int }),
        {
            proof {
                assert(group_keys(before)[p as int] == groups@[p as int].key@);
            }
            match key_side(&groups[p].key, &keys[i]) {
                Side::Before => {
                    p = p + 1;
                },
                _ => {
                    found = true;
                },
            }
        }
        let same: bool = if found {
            match key_side(&groups[p].key, &keys[i]) {
                Side::Same => true,
                _ => false,
            }
        } else {
            false
        };
        proof {
            assert(views.take(i + 1).drop_last() =~= seen);
            assert(views.take(i + 1).last() == key);
            if found {
                assert(group_keys(before)[p as int] == groups@[p as int].key@);
            }
        }
        if same {
            groups[p].members.push(i);
            proof {
                lemma_extend_group(before, groups@, seen, key, p as int);
                assert(seen.push(key) =~= views.take(i + 1));
            }
        } else {
            let mut members: Vec<usize> = Vec::new();
            members.push(i);
            let group = Group { key: keys[i].clone(), members };
            groups.insert(p, group);
            proof {
                lemma_insert_group(before, groups@, seen, key, p as int);
                assert(seen.push(key) =~= views.take(i + 1));
            }
        }
        i = i + 1;
    }
    proof {
        assert(views.take(i as int) =~= views);
    }
    groups
}

// ==================== Distinct texts ====================

/// A piece of text occurs in a list.
pub open spec fn lists(list: Seq<String>, text: Seq<char>) -> bool {
    exists|k: int| 0 <= k < list.len() && (#[trigger] list[k])@ == text
}

/// Whether a text is among others.
pub fn is_listed(list: &Vec<String>, text: &str) -> (res: bool)
    ensures
        res == lists(list@, text@),
{
    let mut i: usize = 0;
    while i < list.len()
        invariant
            i <= list.len(),
            forall|k: int| 0 <= k < i ==> (#[trigger] list@[k])@ != text@,
        decreases list.len() - i,
    {
        if crate::text::same_text(&list[i], text) {
            return true;
        }
        i = i + 1;
    }
    false
}

/// Texts ascend, none occurs twice.
pub open spec fn texts_ascend(list: Seq<String>) -> bool {
    forall|i: int, j: int|
        #![trigger list[i], list[j]]
        0 <= i < j < list.len() ==> text_lt(list[i]@, list[j]@)
}

/// `distinct` holds what `list` holds, each text once and in order.
pub open spec fn is_distinct(distinct: Seq<String>, list: Seq<String>) -> bool {
    &&& texts_ascend(distinct)
    &&& forall|i: int| 0 <= i < distinct.len() ==> lists(list, (#[trigger] distinct[i])@)
    &&& forall|i: int| 0 <= i < list.len() ==> lists(distinct, (#[trigger] list[i])@)
}

/// One-column keys order as the text in them.
proof fn lemma_key_order(a: Seq<char>, b: Seq<char>)
    requires
        key_lt(seq![Some(a)], seq![Some(b)]),
    ensures
        text_lt(a, b),
{
    let x: Seq<Part> = seq![Some(a)];
    let y: Seq<Part> = seq![Some(b)];
    let k = choose|k: int| key_splits_at(x, y, k);
    assert(k == 0);
    assert(part_lt(x[0], y[0]));
}

/// A text is not ahead of itself, nor of one that is ahead of it.
pub proof fn lemma_text_lt_asymmetric(a: Seq<char>, b: Seq<char>)
    requires
        text_lt(a, b),
    ensures
        !text_lt(b, a),
        a != b,
{
    lemma_bytes_lt_asymmetric(vstd::utf8::encode_utf8(a), vstd::utf8::encode_utf8(b));
}

/// The views of texts that ascend hold nothing twice.
pub proof fn lemma_ascending_once(list: Seq<String>)
    requires
        texts_ascend(list),
    ensures
        list.map_values(|t: String| t@).no_duplicates(),
{
    let views = list.map_values(|t: String| t@);
    assert forall|i: int, j: int|
        0 <= i < views.len() && 0 <= j < views.len() && i != j implies views[i] != views[j] by {
        if i < j {
            lemma_text_lt_asymmetric(list[i]@, list[j]@);
        } else {
            lemma_text_lt_asymmetric(list[j]@, list[i]@);
        }
    }
}

/// Two lists that ascend and hold the same texts are the same.
pub proof fn ascending_lists_agree(one: Seq<String>, other: Seq<String>)
    requires
        texts_ascend(one),
        texts_ascend(other),
        forall|i: int| 0 <= i < one.len() ==> lists(other, (#[trigger] one[i])@),
        forall|i: int| 0 <= i < other.len() ==> lists(one, (#[trigger] other[i])@),
    ensures
        one.len() == other.len(),
        forall|i: int|
            #![trigger one[i]]
            #![trigger other[i]]
            0 <= i < one.len() ==> one[i]@ == other[i]@,
{
    lemma_ascending_prefix(one, other, one.len() as int);
    lemma_ascending_prefix(other, one, other.len() as int);
}

proof fn lemma_ascending_prefix(one: Seq<String>, other: Seq<String>, count: int)
    requires
        texts_ascend(one),
        texts_ascend(other),
        forall|i: int| 0 <= i < one.len() ==> lists(other, (#[trigger] one[i])@),
        forall|i: int| 0 <= i < other.len() ==> lists(one, (#[trigger] other[i])@),
        0 <= count <= one.len(),
    ensures
        count <= other.len(),
        forall|i: int|
            #![trigger one[i]]
            #![trigger other[i]]
            0 <= i < count ==> one[i]@ == other[i]@,
    decreases count,
{
    if count > 0 {
        lemma_ascending_prefix(one, other, count - 1);
        let p = count - 1;
        assert(lists(other, one[p]@));
        let q = choose|q: int| 0 <= q < other.len() && (#[trigger] other[q])@ == one[p]@;
        if q < p {
            assert(one[q]@ == other[q]@);
            lemma_text_lt_asymmetric(one[q]@, one[p]@);
        }
        if q > p {
            lemma_text_lt_asymmetric(other[p]@, other[q]@);
            assert(lists(one, other[p]@));
            let r = choose|r: int| 0 <= r < one.len() && (#[trigger] one[r])@ == other[p]@;
            if r < p {
                assert(one[r]@ == other[r]@);
                lemma_text_lt_asymmetric(other[r]@, other[p]@);
            } else if r > p {
                lemma_text_lt_asymmetric(one[p]@, one[r]@);
            }
        }
    }
}

/// What a list holds, each text once and in order.
pub fn distinct_texts(list: &Vec<String>) -> (res: Vec<String>)
    ensures
        is_distinct(res@, list@),
{
    let mut keys: Vec<BucketKey> = Vec::new();
    let mut i: usize = 0;
    while i < list.len()
        invariant
            i <= list.len(),
            keys@.len() == i,
            forall|k: int| 0 <= k < i ==> #[trigger] keys@[k]@ == seq![Some(list@[k]@)],
        decreases list.len() - i,
    {
        let mut parts: Vec<Option<String>> = Vec::new();
        parts.push(Some(list[i].clone()));
        let key = BucketKey { parts };
        proof {
            assert(key@ =~= seq![Some(list@[i as int]@)]);
        }
        keys.push(key);
        i = i + 1;
    }
    let groups = group_by_key(&keys);
    let ghost views = key_views(keys@);
    let mut distinct: Vec<String> = Vec::new();
    let mut g: usize = 0;
    while g < groups.len()
        invariant
            g <= groups.len(),
            keys@.len() == list@.len(),
            views == key_views(keys@),
            forall|k: int| 0 <= k < list@.len() ==> #[trigger] keys@[k]@ == seq![Some(list@[k]@)],
            partitions(groups@, views),
            distinct@.len() == g,
            forall|k: int|
                #![trigger distinct@[k]]
                0 <= k < g ==> seq![Some(distinct@[k]@)] == groups@[k].key@ && lists(
                    list@,
                    distinct@[k]@,
                ),
        decreases groups.len() - g,
    {
        let members = &groups[g].members;
        let ghost key = groups@[g as int].key@;
        proof {
            lemma_positions_of(views, key);
            assert(member_positions(groups@[g as int]) == positions_of(views, key));
            let p = member_positions(groups@[g as int])[0];
            assert(positions_of(views, key).contains(p));
            assert(p == members@[0]);
            assert(views[p] == key);
            assert(keys@[p]@ == seq![Some(list@[p]@)]);
        }
        distinct.push(list[members[0]].clone());
        g = g + 1;
    }
    proof {
        assert forall|i: int, j: int|
            #![trigger distinct@[i], distinct@[j]]
            0 <= i < j < distinct@.len() implies text_lt(distinct@[i]@, distinct@[j]@) by {
            assert(key_lt(group_keys(groups@)[i], group_keys(groups@)[j]));
            lemma_key_order(distinct@[i]@, distinct@[j]@);
        }
        assert forall|i: int| 0 <= i < list@.len() implies lists(
            distinct@,
            (#[trigger] list@[i])@,
        ) by {
            assert(keys@[i]@ == seq![Some(list@[i]@)]);
            assert(group_keys(groups@).contains(views[i]));
            let k = choose|k: int|
                0 <= k < group_keys(groups@).len() && group_keys(groups@)[k] == views[i];
            assert(seq![Some(distinct@[k]@)] == groups@[k].key@);
            assert(groups@[k].key@[0] == Some(list@[i]@));
            assert(seq![Some(distinct@[k]@)][0] == Some(distinct@[k]@));
            assert(distinct@[k]@ == list@[i]@);
        }
    }
    distinct
}

// ==================== Ranking ====================

/// Position `a` is ranked ahead of position `b`: its key is larger, or the
/// keys are equal and it comes first.
pub open spec fn ranks_ahead(keys: Seq<int>, a: int, b: int) -> bool {
    keys[a] > keys[b] || (keys[a] == keys[b] && a < b)
}

/// `ranked` lists every position of `keys` once, best ranked first.
pub open spec fn is_ranking(keys: Seq<int>, ranked: Seq<int>) -> bool {
    &&& ranked.len() == keys.len()
    &&& forall|i: int| 0 <= i < ranked.len() ==> 0 <= #[trigger] ranked[i] < keys.len()
    &&& forall|i: int, j: int|
        0 <= i < j < ranked.len() ==> ranks_ahead(keys, #[trigger] ranked[i], #[trigger] ranked[j])
    &&& forall|p: int| 0 <= p < keys.len() ==> #[trigger] ranked.contains(p)
}

/// Where position `x` stands among already `ranked` positions, all of which
/// come before it: behind every one whose key is at least as large.
pub open spec fn ranked_in(keys: Seq<int>, ranked: Seq<int>, x: int) -> Seq<int>
    decreases ranked.len(),
{
    if ranked.len() == 0 || keys[ranked.last()] >= keys[x] {
        ranked.push(x)
    } else {
        ranked_in(keys, ranked.drop_last(), x).push(ranked.last())
    }
}

/// The positions of `keys` from the largest key to the smallest, equal keys in
/// the order they stand in: what a stable sort by descending key produces.
pub open spec fn ranking(keys: Seq<int>) -> Seq<int> {
    ranking_of_first(keys, keys.len())
}

pub open spec fn ranking_of_first(keys: Seq<int>, n: nat) -> Seq<int>
    decreases n,
{
    if n == 0 {
        Seq::empty()
    } else {
        ranked_in(keys, ranking_of_first(keys, (n - 1) as nat), n - 1)
    }
}

/// `ranked` lists the positions below `n` once each, best ranked first.
spec fn ranks_first(keys: Seq<int>, ranked: Seq<int>, n: int) -> bool {
    &&& ranked.len() == n
    &&& forall|i: int| 0 <= i < ranked.len() ==> 0 <= #[trigger] ranked[i] < n
    &&& forall|i: int, j: int|
        0 <= i < j < ranked.len() ==> ranks_ahead(keys, #[trigger] ranked[i], #[trigger] ranked[j])
    &&& forall|p: int| 0 <= p < n ==> #[trigger] ranked.contains(p)
}

proof fn lemma_ranked_in(keys: Seq<int>, ranked: Seq<int>, x: int)
    requires
        forall|i: int| 0 <= i < ranked.len() ==> 0 <= #[trigger] ranked[i] < x,
        x < keys.len(),
        forall|i: int, j: int|
            0 <= i < j < ranked.len() ==> ranks_ahead(
                keys,
                #[trigger] ranked[i],
                #[trigger] ranked[j],
            ),
    ensures
        ({
            let res = ranked_in(keys, ranked, x);
            &&& res.len() == ranked.len() + 1
            &&& forall|i: int|
                0 <= i < res.len() ==> #[trigger] res[i] == x || ranked.contains(res[i])
            &&& res.contains(x)
            &&& forall|p: int| ranked.contains(p) ==> #[trigger] res.contains(p)
            &&& forall|i: int, j: int|
                0 <= i < j < res.len() ==> ranks_ahead(keys, #[trigger] res[i], #[trigger] res[j])
        }),
    decreases ranked.len(),
{
    let res = ranked_in(keys, ranked, x);
    if ranked.len() == 0 || keys[ranked.last()] >= keys[x] {
        assert forall|i: int| 0 <= i < ranked.len() implies ranks_ahead(
            keys,
            #[trigger] ranked[i],
            x,
        ) by {
            if i < ranked.len() - 1 {
                assert(ranks_ahead(keys, ranked[i], ranked[ranked.len() - 1]));
            }
        }
        assert(res[ranked.len() as int] == x);
        assert forall|p: int| ranked.contains(p) implies #[trigger] res.contains(p) by {
            let i = choose|i: int| 0 <= i < ranked.len() && ranked[i] == p;
            assert(res[i] == p);
        }
        assert forall|i: int| 0 <= i < res.len() implies #[trigger] res[i] == x || ranked.contains(
            res[i],
        ) by {
            if i < ranked.len() {
                assert(res[i] == ranked[i]);
            }
        }
    } else {
        let rest = ranked.drop_last();
        let last = ranked.last();
        lemma_ranked_in(keys, rest, x);
        let inner = ranked_in(keys, rest, x);
        assert forall|i: int| 0 <= i < inner.len() implies ranks_ahead(
            keys,
            #[trigger] inner[i],
            last,
        ) by {
            if inner[i] != x {
                assert(rest.contains(inner[i]));
                let q = choose|q: int| 0 <= q < rest.len() && rest[q] == inner[i];
                assert(ranked[q] == inner[i]);
                assert(ranks_ahead(keys, ranked[q], ranked[ranked.len() - 1]));
            }
        }
        assert forall|i: int| 0 <= i < res.len() implies #[trigger] res[i] == x || ranked.contains(
            res[i],
        ) by {
            if i < inner.len() {
                assert(res[i] == inner[i]);
                if inner[i] != x {
                    assert(rest.contains(inner[i]));
                    let q = choose|q: int| 0 <= q < rest.len() && rest[q] == inner[i];
                    assert(ranked[q] == inner[i]);
                }
            } else {
                assert(ranked[ranked.len() - 1] == last);
            }
        }
        assert forall|p: int| ranked.contains(p) implies #[trigger] res.contains(p) by {
            let q = choose|q: int| 0 <= q < ranked.len() && ranked[q] == p;
            if q < rest.len() {
                assert(rest[q] == p);
                assert(rest.contains(p));
                assert(inner.contains(p));
                let i = choose|i: int| 0 <= i < inner.len() && inner[i] == p;
                assert(res[i] == p);
            } else {
                assert(res[res.len() - 1] == p);
            }
        }
        assert(inner.contains(x));
        let i = choose|i: int| 0 <= i < inner.len() && inner[i] == x;
        assert(res[i] == x);
    }
}

proof fn lemma_ranking_of_first(keys: Seq<int>, n: nat)
    requires
        n <= keys.len(),
    ensures
        ranks_first(keys, ranking_of_first(keys, n), n as int),
    decreases n,
{
    if n > 0 {
        let m = (n - 1) as nat;
        lemma_ranking_of_first(keys, m);
        let before = ranking_of_first(keys, m);
        lemma_ranked_in(keys, before, m as int);
        let res = ranking_of_first(keys, n);
        assert forall|i: int| 0 <= i < res.len() implies 0 <= #[trigger] res[i] < n by {
            if res[i] != m {
                assert(before.contains(res[i]));
            }
        }
        assert forall|p: int| 0 <= p < n implies #[trigger] res.contains(p) by {
            if p < m {
                assert(before.contains(p));
            }
        }
    }
}

/// A ranking lists every position once, by descending key, and keeps the order
/// of positions whose keys are equal.
pub proof fn ranking_is_stable_and_complete(keys: Seq<int>)
    ensures
        is_ranking(keys, ranking(keys)),
{
    lemma_ranking_of_first(keys, keys.len());
}

/// Every position is ranked somewhere.
pub proof fn lemma_ranked_somewhere(keys: Seq<int>, at: int)
    requires
        0 <= at < keys.len(),
    ensures
        exists|i: int| 0 <= i < ranking(keys).len() && ranking(keys)[i] == at,
{
    ranking_is_stable_and_complete(keys);
    assert(ranking(keys).contains(at));
}

/// Only one sequence lists every position once by descending key with equal
/// keys in order: the ranking is determined by what it promises.
pub proof fn ranking_is_unique(keys: Seq<int>, one: Seq<int>, other: Seq<int>)
    requires
        is_ranking(keys, one),
        is_ranking(keys, other),
    ensures
        one == other,
{
    assert forall|n: int| 0 <= n <= one.len() implies #[trigger] one.take(n) == other.take(n) by {
        lemma_rankings_agree(keys, one, other, n);
    }
    assert(one.take(one.len() as int) =~= one);
    assert(other.take(one.len() as int) =~= other);
}

proof fn lemma_rankings_agree(keys: Seq<int>, one: Seq<int>, other: Seq<int>, n: int)
    requires
        is_ranking(keys, one),
        is_ranking(keys, other),
        0 <= n <= one.len(),
    ensures
        one.take(n) == other.take(n),
    decreases n,
{
    if n > 0 {
        lemma_rankings_agree(keys, one, other, n - 1);
        let m = n - 1;
        assert forall|i: int| 0 <= i < m implies one[i] == other[i] by {
            assert(one.take(m)[i] == other.take(m)[i]);
        }
        let a = one[m];
        let b = other[m];
        if a != b {
            assert(other.contains(a));
            assert(one.contains(b));
            let p = choose|p: int| 0 <= p < other.len() && other[p] == a;
            let q = choose|q: int| 0 <= q < one.len() && one[q] == b;
            if p < m {
                assert(one[p] == a);
                assert(ranks_ahead(keys, one[p], one[m]));
            }
            if q < m {
                assert(other[q] == b);
                assert(ranks_ahead(keys, other[q], other[m]));
            }
            assert(ranks_ahead(keys, other[m], other[p]));
            assert(ranks_ahead(keys, one[m], one[q]));
        }
        assert(one.take(n) =~= one.take(m).push(a));
        assert(other.take(n) =~= other.take(m).push(b));
    }
}

/// Integer keys as the integers they are.
pub open spec fn key_ints(keys: Seq<i128>) -> Seq<int> {
    keys.map_values(|k: i128| k as int)
}

/// Positions as integers.
pub open spec fn position_ints(positions: Seq<usize>) -> Seq<int> {
    positions.map_values(|p: usize| p as int)
}

/// Rank positions by descending key, equal keys in the order they stand in.
pub fn rank_descending(keys: &Vec<i128>) -> (ranked: Vec<usize>)
    ensures
        position_ints(ranked@) == ranking(key_ints(keys@)),
{
    let mut ranked: Vec<usize> = Vec::new();
    let ghost ints = key_ints(keys@);
    let mut n: usize = 0;
    proof {
        assert(position_ints(ranked@) =~= ranking_of_first(ints, 0));
    }
    while n < keys.len()
        invariant
            n <= keys.len(),
            ints == key_ints(keys@),
            position_ints(ranked@) == ranking_of_first(ints, n as nat),
            ranked@.len() == n,
            forall|i: int| 0 <= i < ranked@.len() ==> #[trigger] ranked@[i] < keys.len(),
        decreases keys.len() - n,
    {
        let ghost before = ranked@;
        proof {
            lemma_ranking_of_first(ints, n as nat);
            assert(position_ints(before).take(n as int) =~= position_ints(before));
            assert(ranked_in(ints, position_ints(before), n as int) + position_ints(before).skip(
                n as int,
            ) =~= ranked_in(ints, position_ints(before), n as int));
        }
        let mut p: usize = n;
        while p > 0 && keys[ranked[p - 1]] < keys[n]
            invariant
                p <= n,
                n < keys.len(),
                ranked@ == before,
                ranked@.len() == n,
                ints == key_ints(keys@),
                forall|i: int| 0 <= i < ranked@.len() ==> #[trigger] ranked@[i] < keys.len(),
                ranked_in(ints, position_ints(before), n as int) == ranked_in(
                    ints,
                    position_ints(before).take(p as int),
                    n as int,
                ) + position_ints(before).skip(p as int),
            decreases p,
        {
            proof {
                let head = position_ints(before).take(p as int);
                assert(head.drop_last() =~= position_ints(before).take(p - 1));
                assert(head.last() == position_ints(before)[p - 1]);
                assert(ranked_in(ints, head, n as int) + position_ints(before).skip(p as int)
                    =~= ranked_in(ints, position_ints(before).take(p - 1), n as int)
                    + position_ints(before).skip(p - 1));
            }
            p = p - 1;
        }
        ranked.insert(p, n);
        proof {
            let head = position_ints(before).take(p as int);
            if p > 0 {
                assert(head.last() == position_ints(before)[p - 1]);
            }
            assert(ranked_in(ints, head, n as int) =~= head.push(n as int));
            assert(position_ints(ranked@) =~= head.push(n as int) + position_ints(before).skip(
                p as int,
            ));
        }
        n = n + 1;
    }
    ranked
}


/// The items at the given positions, in that order.
pub open spec fn arranged<T>(items: Seq<T>, positions: Seq<int>) -> Seq<T> {
    Seq::new(positions.len(), |i: int| items[positions[i]])
}

/// Put items in the order of a ranking.
pub fn arrange<T>(items: Vec<T>, ranked: &Vec<usize>) -> (res: Vec<T>)
    requires
        forall|i: int| 0 <= i < ranked@.len() ==> #[trigger] ranked@[i] < items@.len(),
        forall|i: int, j: int|
            0 <= i < j < ranked@.len() ==> #[trigger] ranked@[i] != #[trigger] ranked@[j],
    ensures
        res@ == arranged(items@, position_ints(ranked@)),
{
    let ghost all = items@;
    let mut slots: Vec<Option<T>> = Vec::new();
    let mut rest = items;
    let mut n: usize = rest.len();
    while n > 0
        invariant
            n <= all.len(),
            rest@ == all.take(n as int),
            slots@.len() == all.len() - n,
            forall|i: int|
                0 <= i < slots@.len() ==> #[trigger] slots@[i] == Some(all[all.len() - 1 - i]),
        decreases n,
    {
        let item = rest.pop();
        slots.push(item);
        n = n - 1;
        proof {
            assert(rest@ =~= all.take(n as int));
        }
    }
    let total: usize = slots.len();
    let mut res: Vec<T> = Vec::new();
    let mut i: usize = 0;
    while i < ranked.len()
        invariant
            i <= ranked@.len(),
            total == all.len(),
            slots@.len() == total,
            res@.len() == i,
            forall|k: int| 0 <= k < ranked@.len() ==> #[trigger] ranked@[k] < all.len(),
            forall|k: int, j: int|
                0 <= k < j < ranked@.len() ==> #[trigger] ranked@[k] != #[trigger] ranked@[j],
            forall|k: int| 0 <= k < i ==> #[trigger] res@[k] == all[ranked@[k] as int],
            forall|k: int|
                i <= k < ranked@.len() ==> slots@[total - 1 - #[trigger] ranked@[k]] == Some(
                    all[ranked@[k] as int],
                ),
        decreases ranked.len() - i,
    {
        proof {
            assert(ranked@[i as int] < all.len());
        }
        let slot: usize = total - 1 - ranked[i];
        proof {
            assert(slots@[total - 1 - ranked@[i as int]] == Some(all[ranked@[i as int] as int]));
        }
        let item = slots[slot].take();
        match item {
            Some(item) => {
                res.push(item);
            },
            None => {},
        }
        i = i + 1;
    }
    proof {
        assert(res@ =~= arranged(all, position_ints(ranked@)));
    }
    res
}

/// The positions of a ranking lie in range and differ from one another.
pub proof fn lemma_ranked_positions(keys: Seq<int>, ranked: Seq<usize>)
    requires
        position_ints(ranked) == ranking(keys),
    ensures
        ranked.len() == keys.len(),
        forall|i: int| 0 <= i < ranked.len() ==> #[trigger] ranked[i] < keys.len(),
        forall|i: int, j: int|
            0 <= i < j < ranked.len() ==> #[trigger] ranked[i] != #[trigger] ranked[j],
{
    ranking_is_stable_and_complete(keys);
    let ints = position_ints(ranked);
    assert forall|i: int| 0 <= i < ranked.len() implies #[trigger] ranked[i] < keys.len() by {
        assert(ints[i] == ranked[i]);
    }
    assert forall|i: int, j: int| 0 <= i < j < ranked.len() implies #[trigger] ranked[i]
        != #[trigger] ranked[j] by {
        assert(ranks_ahead(keys, ints[i], ints[j]));
    }
}

/// Sorting by a ranking neither loses nor repeats an item.
pub proof fn ranked_items_are_the_items<T>(items: Seq<T>, keys: Seq<int>)
    requires
        items.len() == keys.len(),
    ensures
        arranged(items, ranking(keys)).len() == items.len(),
        arranged(items, ranking(keys)).to_multiset() == items.to_multiset(),
{
    ranking_is_stable_and_complete(keys);
    let ranked = ranking(keys);
    let sorted = arranged(items, ranked);
    lemma_permuted_multiset(items, sorted, ranked);
}

proof fn lemma_permuted_multiset<T>(items: Seq<T>, sorted: Seq<T>, ranked: Seq<int>)
    requires
        sorted.len() == items.len(),
        ranked.len() == items.len(),
        forall|i: int| 0 <= i < ranked.len() ==> 0 <= #[trigger] ranked[i] < items.len(),
        forall|i: int, j: int|
            0 <= i < j < ranked.len() ==> #[trigger] ranked[i] != #[trigger] ranked[j],
        forall|i: int| 0 <= i < sorted.len() ==> #[trigger] sorted[i] == items[ranked[i]],
        forall|p: int| 0 <= p < items.len() ==> #[trigger] ranked.contains(p),
    ensures
        sorted.to_multiset() == items.to_multiset(),
    decreases items.len(),
{
    broadcast use vstd::seq_lib::group_to_multiset_ensures;

    if items.len() == 0 {
        assert(sorted =~= items);
    } else {
        // Take the last of the items out of both.
        let last = items.len() - 1;
        assert(ranked.contains(last));
        let at = choose|i: int| 0 <= i < ranked.len() && ranked[i] == last;
        let fewer = items.drop_last();
        let others = ranked.remove(at);
        let rest = sorted.remove(at);
        assert forall|i: int| 0 <= i < others.len() implies 0 <= #[trigger] others[i]
            < fewer.len() by {
            if i < at {
                assert(ranked[i] != ranked[at]);
            } else {
                assert(ranked[at] != ranked[i + 1]);
            }
        }
        assert forall|p: int| 0 <= p < fewer.len() implies #[trigger] others.contains(p) by {
            assert(ranked.contains(p));
            let i = choose|i: int| 0 <= i < ranked.len() && ranked[i] == p;
            if i < at {
                assert(others[i] == p);
            } else {
                assert(others[i - 1] == p);
            }
        }
        lemma_permuted_multiset(fewer, rest, others);
        assert(items =~= fewer.push(items.last()));
        assert(sorted.to_multiset() =~= rest.to_multiset().insert(sorted[at])) by {
            vstd::seq_lib::to_multiset_remove(sorted, at);
            assert(sorted.to_multiset().count(sorted[at]) > 0);
        }
    }
}

} // verus!
