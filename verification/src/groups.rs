//! Items collected under text keys, in the order the keys first appeared: an association
//! list whose keys are distinct.
use vstd::prelude::*;

verus! {

/// No key occurs twice.
pub open spec fn keys_distinct<V>(g: Seq<(String, Vec<V>)>) -> bool {
    forall|i: int, j: int|
        0 <= i < g.len() && 0 <= j < g.len() && i != j ==> #[trigger] g[i].0@ != #[trigger] g[j].0@
}

/// Some entry has key `k`.
pub open spec fn has_key<V>(g: Seq<(String, Vec<V>)>, k: Seq<char>) -> bool {
    exists|i: int| 0 <= i < g.len() && #[trigger] g[i].0@ == k
}

/// The items collected under key `k`; empty when the key is absent.
pub open spec fn items_under<V>(g: Seq<(String, Vec<V>)>, k: Seq<char>) -> Seq<V> {
    if has_key(g, k) {
        g[choose|i: int| 0 <= i < g.len() && #[trigger] g[i].0@ == k].1@
    } else {
        Seq::empty()
    }
}

/// `new` is `old` with `value` added under `key`: appended to the items of the entry with that
/// key if there is one, otherwise in a new entry at the end. All other entries stay as they were.
pub open spec fn pushed_to_group<V>(
    old: Seq<(String, Vec<V>)>,
    key: Seq<char>,
    value: V,
    new: Seq<(String, Vec<V>)>,
) -> bool {
    if has_key(old, key) {
        &&& new.len() == old.len()
        &&& forall|j: int|
            0 <= j < old.len() ==> {
                &&& #[trigger] new[j].0 == old[j].0
                &&& old[j].0@ == key ==> new[j].1@ == old[j].1@.push(value)
                &&& old[j].0@ != key ==> new[j] == old[j]
            }
    } else {
        &&& new.len() == old.len() + 1
        &&& forall|j: int| 0 <= j < old.len() ==> #[trigger] new[j] == old[j]
        &&& new.last().0@ == key
        &&& new.last().1@ == seq![value]
    }
}

/// Adds `value` under `key`.
pub fn push_to_group<V>(groups: &mut Vec<(String, Vec<V>)>, key: String, value: V)
    requires
        keys_distinct(old(groups)@),
    ensures
        keys_distinct(final(groups)@),
        pushed_to_group(old(groups)@, key@, value, final(groups)@),
{
    let mut i: usize = 0;
    while i < groups.len()
        invariant
            0 <= i <= groups.len(),
            *groups == *old(groups),
            keys_distinct(groups@),
            forall|j: int| 0 <= j < i ==> #[trigger] groups@[j].0@ != key@,
        decreases groups.len() - i,
    {
        if groups[i].0 == key {
            let ghost before = groups@;
            let mut entry = groups.remove(i);
            entry.1.push(value);
            groups.insert(i, entry);
            proof {
                assert forall|j: int| 0 <= j < before.len() implies {
                    &&& #[trigger] groups@[j].0 == before[j].0
                    &&& before[j].0@ == key@ ==> groups@[j].1@ == before[j].1@.push(value)
                    &&& before[j].0@ != key@ ==> groups@[j] == before[j]
                } by {
                    if j == i as int {
                    } else if j < i {
                    } else {
                        assert(before[i as int].0@ == key@);
                        assert(before[j].0@ != before[i as int].0@);
                    }
                }
                assert forall|a: int, b: int|
                    0 <= a < groups@.len() && 0 <= b < groups@.len() && a != b implies
                    #[trigger] groups@[a].0@ != #[trigger] groups@[b].0@ by {
                    assert(groups@[a].0 == before[a].0);
                    assert(groups@[b].0 == before[b].0);
                }
            }
            return;
        }
        i = i + 1;
    }
    let mut items: Vec<V> = Vec::new();
    items.push(value);
    groups.push((key, items));
    proof {
        assert(!has_key(old(groups)@, key@));
    }
}

/// Adding under a key extends exactly that key's items: the key gets `value` appended, every
/// other key keeps its items, and the keys stay distinct.
pub proof fn lemma_items_after_push<V>(
    old: Seq<(String, Vec<V>)>,
    key: Seq<char>,
    value: V,
    new: Seq<(String, Vec<V>)>,
    other: Seq<char>,
)
    requires
        keys_distinct(old),
        keys_distinct(new),
        pushed_to_group(old, key, value, new),
    ensures
        items_under(new, key) == items_under(old, key).push(value),
        other != key ==> items_under(new, other) == items_under(old, other),
        has_key(new, key),
        other != key ==> (has_key(new, other) <==> has_key(old, other)),
{
    if has_key(old, key) {
        let i = choose|i: int| 0 <= i < old.len() && #[trigger] old[i].0@ == key;
        assert(new[i].0@ == key);
        assert(has_key(new, key));
        let i2 = choose|i2: int| 0 <= i2 < new.len() && #[trigger] new[i2].0@ == key;
        assert(i2 == i);
        let i3 = choose|i3: int| 0 <= i3 < old.len() && #[trigger] old[i3].0@ == key;
        assert(i3 == i);
    } else {
        let last = new.len() - 1;
        assert(new[last].0@ == key);
        assert(has_key(new, key));
        let i2 = choose|i2: int| 0 <= i2 < new.len() && #[trigger] new[i2].0@ == key;
        assert(i2 == last);
    }
    if other != key {
        if has_key(old, other) {
            let k = choose|k: int| 0 <= k < old.len() && #[trigger] old[k].0@ == other;
            assert(new[k].0@ == other);
            assert(has_key(new, other));
            let k2 = choose|k2: int| 0 <= k2 < new.len() && #[trigger] new[k2].0@ == other;
            assert(k2 == k);
        }
        if has_key(new, other) {
            let k = choose|k: int| 0 <= k < new.len() && #[trigger] new[k].0@ == other;
            if k < old.len() {
                assert(old[k].0@ == other);
            }
        }
    }
}

/// The values given under `key`, in the order given.
pub open spec fn values_under<V>(pairs: Seq<(Seq<char>, V)>, key: Seq<char>) -> Seq<V>
    decreases pairs.len(),
{
    if pairs.len() == 0 {
        Seq::empty()
    } else if pairs.last().0 == key {
        values_under(pairs.drop_last(), key).push(pairs.last().1)
    } else {
        values_under(pairs.drop_last(), key)
    }
}

/// The position where `key` first occurs in `pairs`; the length of `pairs` when it does not.
pub open spec fn first_index<V>(pairs: Seq<(Seq<char>, V)>, key: Seq<char>) -> int
    decreases pairs.len(),
{
    if pairs.len() == 0 {
        0
    } else if first_index(pairs.drop_last(), key) < pairs.len() - 1 {
        first_index(pairs.drop_last(), key)
    } else if pairs.last().0 == key {
        pairs.len() - 1
    } else {
        pairs.len() as int
    }
}

/// `g` collects the values of `pairs` under their keys: one entry per key, the entries in the
/// order their keys first occur, each holding its key's values in the order given.
pub open spec fn is_grouping<V>(pairs: Seq<(Seq<char>, V)>, g: Seq<(String, Vec<V>)>) -> bool {
    &&& keys_distinct(g)
    &&& forall|k: int| 0 <= k < g.len() ==> (#[trigger] g[k]).1@ == values_under(pairs, g[k].0@)
    &&& forall|k: int| 0 <= k < g.len() ==> first_index(pairs, (#[trigger] g[k]).0@) < pairs.len()
    &&& forall|j: int| 0 <= j < pairs.len() ==> has_key(g, (#[trigger] pairs[j]).0)
    &&& forall|a: int, b: int|
        0 <= a < b < g.len() ==> first_index(pairs, (#[trigger] g[a]).0@) < first_index(pairs, (#[trigger] g[b]).0@)
}

proof fn lemma_first_index_bounds<V>(pairs: Seq<(Seq<char>, V)>, key: Seq<char>)
    ensures
        0 <= first_index(pairs, key) <= pairs.len(),
        first_index(pairs, key) < pairs.len() ==> pairs[first_index(pairs, key)].0 == key,
        first_index(pairs, key) == pairs.len() ==> forall|j: int| 0 <= j < pairs.len() ==> (#[trigger] pairs[j]).0 != key,
    decreases pairs.len(),
{
    if pairs.len() > 0 {
        lemma_first_index_bounds(pairs.drop_last(), key);
        assert forall|j: int| 0 <= j < pairs.len() - 1 implies #[trigger] pairs.drop_last()[j] == pairs[j] by {}
        if first_index(pairs, key) == pairs.len() {
            assert forall|j: int| 0 <= j < pairs.len() implies (#[trigger] pairs[j]).0 != key by {
                if j < pairs.len() - 1 {
                    assert(pairs.drop_last()[j] == pairs[j]);
                }
            }
        }
    }
}

proof fn lemma_values_absent<V>(pairs: Seq<(Seq<char>, V)>, key: Seq<char>)
    requires
        forall|j: int| 0 <= j < pairs.len() ==> (#[trigger] pairs[j]).0 != key,
    ensures
        values_under(pairs, key) == Seq::<V>::empty(),
    decreases pairs.len(),
{
    if pairs.len() > 0 {
        assert forall|j: int| 0 <= j < pairs.len() - 1 implies (#[trigger] pairs.drop_last()[j]).0 != key by {
            assert(pairs.drop_last()[j] == pairs[j]);
        }
        lemma_values_absent(pairs.drop_last(), key);
    }
}

/// Adding a value under a key keeps a grouping a grouping: collecting values one by one with
/// `push_to_group` groups them by key, in the order the keys first occur.
pub proof fn lemma_grouping_push<V>(
    pairs: Seq<(Seq<char>, V)>,
    old: Seq<(String, Vec<V>)>,
    key: Seq<char>,
    value: V,
    new: Seq<(String, Vec<V>)>,
)
    requires
        is_grouping(pairs, old),
        keys_distinct(new),
        pushed_to_group(old, key, value, new),
    ensures
        is_grouping(pairs.push((key, value)), new),
{
    let np = pairs.push((key, value));
    assert(np.drop_last() =~= pairs);
    assert forall|k: Seq<char>| #![trigger first_index(np, k)]
        first_index(pairs, k) < pairs.len() ==> first_index(np, k) == first_index(pairs, k) by {}
    if has_key(old, key) {
        let i = choose|i: int| 0 <= i < old.len() && #[trigger] old[i].0@ == key;
        assert(old[i].0@ == key);
        assert forall|k: int| 0 <= k < new.len() implies (#[trigger] new[k]).1@ == values_under(np, new[k].0@) by {
            assert(new[k].0 == old[k].0);
            assert(old[k] == old[k]);
        }
        assert forall|k: int| 0 <= k < new.len() implies first_index(np, (#[trigger] new[k]).0@) < np.len() by {
            assert(new[k].0 == old[k].0);
            assert(old[k] == old[k]);
        }
        assert forall|j: int| 0 <= j < np.len() implies has_key(new, (#[trigger] np[j]).0) by {
            if j < pairs.len() {
                assert(np[j] == pairs[j]);
                assert(has_key(old, pairs[j].0));
                let m = choose|m: int| 0 <= m < old.len() && #[trigger] old[m].0@ == pairs[j].0;
                assert(new[m].0 == old[m].0);
            } else {
                assert(new[i].0 == old[i].0);
            }
        }
        assert forall|a: int, b: int| 0 <= a < b < new.len() implies first_index(np, (#[trigger] new[a]).0@)
            < first_index(np, (#[trigger] new[b]).0@) by {
            assert(new[a].0 == old[a].0);
            assert(new[b].0 == old[b].0);
            assert(old[a] == old[a] && old[b] == old[b]);
        }
    } else {
        let n = old.len();
        assert(first_index(pairs, key) == pairs.len()) by {
            lemma_first_index_bounds(pairs, key);
            if first_index(pairs, key) < pairs.len() {
                let j = first_index(pairs, key);
                assert(pairs[j] == pairs[j]);
                assert(has_key(old, pairs[j].0));
            }
        }
        lemma_first_index_bounds(pairs, key);
        lemma_values_absent(pairs, key);
        assert(first_index(np, key) == pairs.len());
        assert forall|k: int| 0 <= k < new.len() implies (#[trigger] new[k]).1@ == values_under(np, new[k].0@) by {
            if k < n {
                assert(new[k] == old[k]);
                assert(old[k] == old[k]);
                if old[k].0@ == key {
                    assert(has_key(old, key));
                }
            }
        }
        assert forall|k: int| 0 <= k < new.len() implies first_index(np, (#[trigger] new[k]).0@) < np.len() by {
            if k < n {
                assert(new[k] == old[k]);
                assert(old[k] == old[k]);
            }
        }
        assert forall|j: int| 0 <= j < np.len() implies has_key(new, (#[trigger] np[j]).0) by {
            if j < pairs.len() {
                assert(np[j] == pairs[j]);
                assert(has_key(old, pairs[j].0));
                let m = choose|m: int| 0 <= m < old.len() && #[trigger] old[m].0@ == pairs[j].0;
                assert(new[m] == old[m]);
            } else {
                assert(new[n as int].0@ == key);
            }
        }
        assert forall|a: int, b: int| 0 <= a < b < new.len() implies first_index(np, (#[trigger] new[a]).0@)
            < first_index(np, (#[trigger] new[b]).0@) by {
            assert(new[a] == old[a]);
            assert(old[a] == old[a]);
            if b < n {
                assert(new[b] == old[b]);
                assert(old[b] == old[b]);
            }
        }
    }
}

} // verus!
