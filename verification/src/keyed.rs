use vstd::prelude::*;
use vstd::set_lib::lemma_subset_equality;

verus! {

/// A value that is held under a key derived from the value itself.
pub trait Keyed {
    type Key;

    spec fn key(&self) -> Self::Key;
}

/// Some entry of `list` has the key `k`.
pub open spec fn holds<V: Keyed>(list: Seq<V>, k: V::Key) -> bool {
    exists|i: int| 0 <= i < list.len() && (#[trigger] list[i]).key() == k
}

/// A position of `list` whose entry has the key `k`, where there is one.
pub open spec fn slot<V: Keyed>(list: Seq<V>, k: V::Key) -> int {
    choose|i: int| 0 <= i < list.len() && (#[trigger] list[i]).key() == k
}

/// No two entries of `list` have the same key.
pub open spec fn distinct<V: Keyed>(list: Seq<V>) -> bool {
    forall|i: int, j: int|
        0 <= i < j < list.len() ==> (#[trigger] list[i]).key() != (#[trigger] list[j]).key()
}

/// The mapping from each key of `list` to the entry held under it.
pub open spec fn by_key<V: Keyed>(list: Seq<V>) -> Map<V::Key, V> {
    Map::new(|k: V::Key| holds(list, k), |k: V::Key| list[slot(list, k)])
}

/// In a list of distinct keys, each entry is the one its key maps to.
pub proof fn lemma_by_key_at<V: Keyed>(list: Seq<V>, i: int)
    requires
        distinct(list),
        0 <= i < list.len(),
    ensures
        holds(list, list[i].key()),
        slot(list, list[i].key()) == i,
        by_key(list).contains_key(list[i].key()),
        by_key(list)[list[i].key()] == list[i],
{
    let s = slot(list, list[i].key());
    assert(list[s].key() == list[i].key());
}

/// Appending an entry under a new key adds that one key to the mapping.
pub proof fn lemma_by_key_push<V: Keyed>(list: Seq<V>, v: V)
    requires
        distinct(list),
        !holds(list, v.key()),
    ensures
        distinct(list.push(v)),
        by_key(list.push(v)) == by_key(list).insert(v.key(), v),
{
    let grown = list.push(v);
    assert(distinct(grown));
    assert forall|k: V::Key| holds(grown, k) <==> (holds(list, k) || k == v.key()) by {
        if holds(list, k) {
            assert(grown[slot(list, k)].key() == k);
        }
        if k == v.key() {
            assert(grown[list.len() as int].key() == k);
        }
    }
    let target = by_key(list).insert(v.key(), v);
    assert forall|k: V::Key| holds(grown, k) implies #[trigger] by_key(grown)[k] == target[k] by {
        let i = slot(grown, k);
        lemma_by_key_at(grown, i);
        if i < list.len() {
            lemma_by_key_at(list, i);
        }
    }
    assert(by_key(grown) =~= target);
}

/// Replacing an entry by one of the same key changes what that key maps to,
/// and nothing else.
pub proof fn lemma_by_key_update<V: Keyed>(list: Seq<V>, i: int, v: V)
    requires
        distinct(list),
        0 <= i < list.len(),
        list[i].key() == v.key(),
    ensures
        distinct(list.update(i, v)),
        by_key(list.update(i, v)) == by_key(list).insert(v.key(), v),
{
    let changed = list.update(i, v);
    assert(distinct(changed));
    assert forall|k: V::Key| holds(changed, k) <==> holds(list, k) by {
        if holds(changed, k) {
            assert(list[slot(changed, k)].key() == k);
        }
        if holds(list, k) {
            assert(changed[slot(list, k)].key() == k);
        }
    }
    lemma_by_key_at(list, i);
    let target = by_key(list).insert(v.key(), v);
    assert forall|k: V::Key| holds(changed, k) implies #[trigger] by_key(changed)[k]
        == target[k] by {
        let j = slot(changed, k);
        lemma_by_key_at(changed, j);
        lemma_by_key_at(list, j);
    }
    assert(by_key(changed) =~= target);
}

/// The mapping of a list is finite and has at most as many keys as the list
/// has entries: exactly as many where the keys are distinct.
pub proof fn lemma_by_key_len<V: Keyed>(list: Seq<V>)
    ensures
        by_key(list).dom().finite(),
        by_key(list).len() <= list.len(),
        distinct(list) ==> by_key(list).len() == list.len(),
    decreases list.len(),
{
    if list.len() == 0 {
        assert(by_key(list).dom() =~= Set::<V::Key>::empty());
    } else {
        let front = list.drop_last();
        let last = list.last();
        lemma_by_key_len(front);
        assert forall|k: V::Key| holds(list, k) <==> (holds(front, k) || k == last.key()) by {
            if holds(list, k) {
                let i = slot(list, k);
                if i < front.len() {
                    assert(front[i].key() == k);
                }
            }
            if holds(front, k) {
                assert(list[slot(front, k)].key() == k);
            }
        }
        assert(by_key(list).dom() =~= by_key(front).dom().insert(last.key()));
        if distinct(list) {
            assert(distinct(front));
            if holds(front, last.key()) {
                assert(list[slot(front, last.key())].key() == last.key());
            }
        }
    }
}

/// Two lists of distinct keys and of one length stand for the same mapping
/// where every entry of the first is held, under its key, by the second.
pub proof fn lemma_same_mapping<V: Keyed>(a: Seq<V>, b: Seq<V>)
    requires
        distinct(a),
        distinct(b),
        a.len() == b.len(),
        forall|i: int|
            0 <= i < a.len() ==> by_key(b).contains_key((#[trigger] a[i]).key())
                && by_key(b)[a[i].key()] == a[i],
    ensures
        by_key(a) == by_key(b),
{
    lemma_by_key_len(a);
    lemma_by_key_len(b);
    assert forall|k: V::Key| by_key(a).contains_key(k) implies
        by_key(b).contains_key(k) && by_key(a)[k] == by_key(b)[k]
    by {
        lemma_by_key_at(a, slot(a, k));
    }
    lemma_subset_equality(by_key(a).dom(), by_key(b).dom());
    assert(by_key(a) =~= by_key(b));
}

/// The entry `v` contradicts `base`: `base` holds its key under another
/// definition.
pub open spec fn clashes<V: Keyed>(base: Map<V::Key, V>, v: V) -> bool {
    base.contains_key(v.key()) && base[v.key()] != v
}

/// `i` is the position of the first entry of `incoming` that contradicts
/// `base`.
pub open spec fn is_first_clash<V: Keyed>(base: Map<V::Key, V>, incoming: Seq<V>, i: int) -> bool {
    &&& 0 <= i < incoming.len()
    &&& clashes(base, incoming[i])
    &&& forall|j: int| 0 <= j < i ==> !clashes(base, #[trigger] incoming[j])
}

/// The position of the first entry of `incoming` that contradicts `base`,
/// where there is one.
pub open spec fn first_clash<V: Keyed>(base: Map<V::Key, V>, incoming: Seq<V>) -> int {
    choose|i: int| is_first_clash(base, incoming, i)
}

/// The test that an entry's key is new to `base`.
pub open spec fn fresh<V: Keyed>(base: Map<V::Key, V>) -> spec_fn(V) -> bool {
    |v: V| !base.contains_key(v.key())
}

/// The entries of `base`, followed by those entries of `incoming` whose key
/// `base` lacks, in the order of `incoming`.
pub open spec fn combined<V: Keyed>(base: Seq<V>, incoming: Seq<V>) -> Seq<V> {
    base + incoming.filter(fresh(by_key(base)))
}

/// There is only one first contradiction.
pub proof fn lemma_first_clash<V: Keyed>(base: Map<V::Key, V>, incoming: Seq<V>, i: int)
    requires
        is_first_clash(base, incoming, i),
    ensures
        first_clash(base, incoming) == i,
{
    let c = first_clash(base, incoming);
    assert(is_first_clash(base, incoming, c));
    assert(!(c < i) && !(i < c));
}

/// Two lists stand for mappings that agree exactly when no entry of the second
/// contradicts the first.
pub proof fn lemma_agrees_iff_no_clash<V: Keyed>(base: Seq<V>, incoming: Seq<V>)
    requires
        distinct(incoming),
    ensures
        by_key(base).agrees(by_key(incoming)) <==> (forall|j: int|
            0 <= j < incoming.len() ==> !clashes(by_key(base), #[trigger] incoming[j])),
{
    let a = by_key(base);
    let b = by_key(incoming);
    if a.agrees(b) {
        assert forall|j: int| 0 <= j < incoming.len() implies
            !clashes(a, #[trigger] incoming[j])
        by {
            lemma_by_key_at(incoming, j);
        }
    }
    if forall|j: int| 0 <= j < incoming.len() ==> !clashes(a, #[trigger] incoming[j]) {
        assert forall|k: V::Key| a.contains_key(k) && b.contains_key(k) implies a[k] == b[k] by {
            lemma_by_key_at(incoming, slot(incoming, k));
        }
    }
}

/// `acc` is what `base` has become once the first `n` entries of `incoming`,
/// none of which contradicts it, have been taken in.
pub open spec fn absorbed<V: Keyed>(base: Seq<V>, incoming: Seq<V>, n: int, acc: Seq<V>) -> bool {
    &&& 0 <= n <= incoming.len()
    &&& acc == combined(base, incoming.take(n))
    &&& distinct(acc)
    &&& by_key(acc) == by_key(base).union_prefer_right(by_key(incoming.take(n)))
    &&& forall|j: int| 0 <= j < n ==> !clashes(by_key(base), #[trigger] incoming[j])
}

/// Before any entry is taken in, `base` is unchanged.
pub proof fn lemma_absorbed_none<V: Keyed>(base: Seq<V>, incoming: Seq<V>)
    requires
        distinct(base),
    ensures
        absorbed(base, incoming, 0, base),
{
    reveal(Seq::filter);
    let none = incoming.take(0);
    assert(combined(base, none) =~= base);
    assert(by_key(base) =~= by_key(base).union_prefer_right(by_key(none)));
}

/// Taking in one more entry that does not contradict `base`: it is appended
/// where its key is new, and left out where `base` holds it already.
pub proof fn lemma_absorbed_next<V: Keyed>(base: Seq<V>, incoming: Seq<V>, n: int, acc: Seq<V>)
    requires
        distinct(base),
        distinct(incoming),
        absorbed(base, incoming, n, acc),
        n < incoming.len(),
        !clashes(by_key(base), incoming[n]),
    ensures
        by_key(base).contains_key(incoming[n].key()) ==> absorbed(base, incoming, n + 1, acc),
        !by_key(base).contains_key(incoming[n].key())
            ==> absorbed(base, incoming, n + 1, acc.push(incoming[n])),
{
    let v = incoming[n];
    let k = v.key();
    let before = incoming.take(n);
    let after = incoming.take(n + 1);
    let keep = fresh(by_key(base));
    assert(after.drop_last() =~= before);
    assert(after.last() == v);
    assert(after.filter(keep) == if keep(v) {
        before.filter(keep).push(v)
    } else {
        before.filter(keep)
    }) by {
        reveal(Seq::filter);
    }
    assert(distinct(before));
    assert(!holds(before, k)) by {
        if holds(before, k) {
            assert(incoming[slot(before, k)].key() != incoming[n].key());
        }
    }
    assert(after =~= before.push(v));
    lemma_by_key_push(before, v);
    let joined = by_key(base).union_prefer_right(by_key(after));
    if by_key(base).contains_key(k) {
        assert(joined =~= by_key(acc));
    } else {
        assert(combined(base, after) =~= acc.push(v));
        assert(!holds(acc, k)) by {
            assert(!by_key(acc).contains_key(k));
        }
        lemma_by_key_push(acc, v);
        assert(joined =~= by_key(acc).insert(k, v));
    }
}

/// Taking in a whole list that does not contradict `base` gives a list of
/// distinct keys that stands for the mapping of both.
pub proof fn lemma_combined<V: Keyed>(base: Seq<V>, incoming: Seq<V>)
    requires
        distinct(base),
        distinct(incoming),
        by_key(base).agrees(by_key(incoming)),
    ensures
        distinct(combined(base, incoming)),
        by_key(combined(base, incoming)) == by_key(base).union_prefer_right(by_key(incoming)),
{
    lemma_agrees_iff_no_clash(base, incoming);
    lemma_absorbed_upto(base, incoming, incoming.len() as int);
    assert(incoming.take(incoming.len() as int) =~= incoming);
}

/// Taking in the first `n` entries of a list that does not contradict `base`.
proof fn lemma_absorbed_upto<V: Keyed>(base: Seq<V>, incoming: Seq<V>, n: int)
    requires
        distinct(base),
        distinct(incoming),
        0 <= n <= incoming.len(),
        forall|j: int| 0 <= j < incoming.len() ==> !clashes(by_key(base), #[trigger] incoming[j]),
    ensures
        absorbed(base, incoming, n, combined(base, incoming.take(n))),
    decreases n,
{
    if n == 0 {
        lemma_absorbed_none(base, incoming);
    } else {
        lemma_absorbed_upto(base, incoming, n - 1);
        lemma_absorbed_next(base, incoming, n - 1, combined(base, incoming.take(n - 1)));
    }
}

} // verus!
