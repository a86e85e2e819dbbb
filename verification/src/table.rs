//! A table kept as a sequence of entries in ascending order of their keys,
//! read as a map from key to value.

use vstd::prelude::*;

verus! {

/// The keys of `entries` grow strictly from front to back.
pub open spec fn ascending<T>(entries: Seq<T>, key: spec_fn(T) -> u64) -> bool {
    forall|i: int, j: int| 0 <= i < j < entries.len() ==> key(entries[i]) < key(entries[j])
}

/// Every key of `entries` is less than `bound`.
pub open spec fn below<T>(entries: Seq<T>, key: spec_fn(T) -> u64, bound: u64) -> bool {
    forall|i: int| 0 <= i < entries.len() ==> key(#[trigger] entries[i]) < bound
}

/// Some entry has the key `k`.
pub open spec fn holds<T>(entries: Seq<T>, key: spec_fn(T) -> u64, k: u64) -> bool {
    exists|i: int| 0 <= i < entries.len() && key(#[trigger] entries[i]) == k
}

/// Where an entry with the key `k` stands.
pub open spec fn place<T>(entries: Seq<T>, key: spec_fn(T) -> u64, k: u64) -> int {
    choose|i: int| 0 <= i < entries.len() && key(#[trigger] entries[i]) == k
}

/// The map that `entries` stand for.
pub open spec fn index<T, V>(
    entries: Seq<T>,
    key: spec_fn(T) -> u64,
    value: spec_fn(T) -> V,
) -> Map<u64, V> {
    Map::new(|k: u64| holds(entries, key, k), |k: u64| value(entries[place(entries, key, k)]))
}

/// An entry of the sequence is an entry of the map.
pub proof fn lemma_entry<T, V>(
    entries: Seq<T>,
    key: spec_fn(T) -> u64,
    value: spec_fn(T) -> V,
    i: int,
)
    requires
        ascending(entries, key),
        0 <= i < entries.len(),
    ensures
        index(entries, key, value).contains_key(key(entries[i])),
        index(entries, key, value)[key(entries[i])] == value(entries[i]),
{
    let k = key(entries[i]);
    assert(holds(entries, key, k));
    let at = place(entries, key, k);
    assert(at == i) by {
        if at < i {
            assert(key(entries[at]) < key(entries[i]));
        }
        if i < at {
            assert(key(entries[i]) < key(entries[at]));
        }
    }
}

/// A key that no entry has is no key of the map.
pub proof fn lemma_absent<T, V>(
    entries: Seq<T>,
    key: spec_fn(T) -> u64,
    value: spec_fn(T) -> V,
    k: u64,
)
    requires
        forall|i: int| 0 <= i < entries.len() ==> key(#[trigger] entries[i]) != k,
    ensures
        !index(entries, key, value).contains_key(k),
{
}

/// Appending an entry with a greater key inserts it into the map.
pub proof fn lemma_push<T, V>(
    entries: Seq<T>,
    key: spec_fn(T) -> u64,
    value: spec_fn(T) -> V,
    entry: T,
)
    requires
        ascending(entries, key),
        below(entries, key, key(entry)),
    ensures
        ascending(entries.push(entry), key),
        index(entries.push(entry), key, value) == index(entries, key, value).insert(
            key(entry),
            value(entry),
        ),
{
    let longer = entries.push(entry);
    assert(ascending(longer, key)) by {
        assert forall|i: int, j: int| 0 <= i < j < longer.len() implies key(longer[i]) < key(
            longer[j],
        ) by {
            if j < entries.len() {
                assert(key(entries[i]) < key(entries[j]));
            } else {
                assert(key(entries[i]) < key(entry));
            }
        }
    }
    let before = index(entries, key, value);
    let after = index(longer, key, value);
    assert forall|k: u64| after.contains_key(k) <==> before.insert(
        key(entry),
        value(entry),
    ).contains_key(k) by {
        if holds(longer, key, k) {
            let at = place(longer, key, k);
            if at < entries.len() {
                assert(key(entries[at]) == k);
            }
        }
        if holds(entries, key, k) {
            let at = place(entries, key, k);
            assert(key(longer[at]) == k);
        }
        if k == key(entry) {
            assert(key(longer[entries.len() as int]) == k);
        }
    }
    assert forall|k: u64| after.contains_key(k) implies after[k] == before.insert(
        key(entry),
        value(entry),
    )[k] by {
        let at = place(longer, key, k);
        lemma_entry(longer, key, value, at);
        if at < entries.len() {
            assert(longer[at] == entries[at]);
            lemma_entry(entries, key, value, at);
        }
    }
    assert(after =~= before.insert(key(entry), value(entry)));
}

/// Replacing an entry by one with the same key replaces its value in the map.
pub proof fn lemma_update<T, V>(
    entries: Seq<T>,
    key: spec_fn(T) -> u64,
    value: spec_fn(T) -> V,
    i: int,
    entry: T,
)
    requires
        ascending(entries, key),
        0 <= i < entries.len(),
        key(entry) == key(entries[i]),
    ensures
        ascending(entries.update(i, entry), key),
        index(entries.update(i, entry), key, value) == index(entries, key, value).insert(
            key(entry),
            value(entry),
        ),
{
    let changed = entries.update(i, entry);
    assert(ascending(changed, key)) by {
        assert forall|a: int, b: int| 0 <= a < b < changed.len() implies key(changed[a]) < key(
            changed[b],
        ) by {
            assert(key(entries[a]) < key(entries[b]));
        }
    }
    let before = index(entries, key, value);
    let after = index(changed, key, value);
    assert forall|k: u64| after.contains_key(k) <==> before.insert(
        key(entry),
        value(entry),
    ).contains_key(k) by {
        if holds(changed, key, k) {
            let at = place(changed, key, k);
            assert(key(entries[at]) == k);
        }
        if holds(entries, key, k) {
            let at = place(entries, key, k);
            assert(key(changed[at]) == k);
        }
        if k == key(entry) {
            assert(key(changed[i]) == k);
        }
    }
    assert forall|k: u64| after.contains_key(k) implies after[k] == before.insert(
        key(entry),
        value(entry),
    )[k] by {
        let at = place(changed, key, k);
        lemma_entry(changed, key, value, at);
        if at != i {
            assert(changed[at] == entries[at]);
            lemma_entry(entries, key, value, at);
        }
    }
    assert(after =~= before.insert(key(entry), value(entry)));
}

/// Taking an entry out removes its key from the map.
pub proof fn lemma_remove<T, V>(
    entries: Seq<T>,
    key: spec_fn(T) -> u64,
    value: spec_fn(T) -> V,
    i: int,
)
    requires
        ascending(entries, key),
        0 <= i < entries.len(),
    ensures
        ascending(entries.remove(i), key),
        index(entries.remove(i), key, value) == index(entries, key, value).remove(
            key(entries[i]),
        ),
{
    let shorter = entries.remove(i);
    assert forall|a: int| 0 <= a < shorter.len() implies #[trigger] shorter[a] == entries[if a
        < i {
        a
    } else {
        a + 1
    }] by {}
    assert(ascending(shorter, key)) by {
        assert forall|a: int, b: int| 0 <= a < b < shorter.len() implies key(shorter[a]) < key(
            shorter[b],
        ) by {
            let a0 = if a < i { a } else { a + 1 };
            let b0 = if b < i { b } else { b + 1 };
            assert(shorter[a] == entries[a0]);
            assert(shorter[b] == entries[b0]);
            assert(key(entries[a0]) < key(entries[b0]));
        }
    }
    let gone = key(entries[i]);
    let before = index(entries, key, value);
    let after = index(shorter, key, value);
    assert forall|k: u64| after.contains_key(k) <==> before.remove(gone).contains_key(k) by {
        if holds(shorter, key, k) {
            let at = place(shorter, key, k);
            let at0 = if at < i { at } else { at + 1 };
            assert(shorter[at] == entries[at0]);
            assert(key(entries[at0]) == k);
            if at0 < i {
                assert(key(entries[at0]) < key(entries[i]));
            } else {
                assert(key(entries[i]) < key(entries[at0]));
            }
        }
        if holds(entries, key, k) && k != gone {
            let at = place(entries, key, k);
            let to = if at < i { at } else { at - 1 };
            assert(shorter[to] == entries[at]);
            assert(key(shorter[to]) == k);
        }
    }
    assert forall|k: u64| after.contains_key(k) implies after[k] == before.remove(gone)[k] by {
        let at = place(shorter, key, k);
        let at0 = if at < i { at } else { at + 1 };
        lemma_entry(shorter, key, value, at);
        assert(shorter[at] == entries[at0]);
        lemma_entry(entries, key, value, at0);
    }
    assert(after =~= before.remove(gone));
}

/// `kept` holds, in their order, the entries among the first `upto` of
/// `entries` that `keep` accepts; `origin` tells where each of them stood.
pub open spec fn selected<T>(
    entries: Seq<T>,
    kept: Seq<T>,
    origin: Seq<int>,
    keep: spec_fn(T) -> bool,
    upto: int,
) -> bool {
    &&& origin.len() == kept.len()
    &&& forall|k: int|
        0 <= k < kept.len() ==> 0 <= #[trigger] origin[k] < upto && kept[k] == entries[origin[k]]
            && keep(entries[origin[k]])
    &&& forall|a: int, b: int| 0 <= a < b < kept.len() ==> origin[a] < origin[b]
    &&& forall|j: int|
        0 <= j < upto && keep(#[trigger] entries[j]) ==> exists|k: int|
            0 <= k < kept.len() && #[trigger] origin[k] == j
}

/// Looking at one more entry keeps a selection a selection.
pub proof fn lemma_select_next<T>(
    entries: Seq<T>,
    kept: Seq<T>,
    origin: Seq<int>,
    keep: spec_fn(T) -> bool,
    upto: int,
)
    requires
        0 <= upto < entries.len(),
        selected(entries, kept, origin, keep, upto),
    ensures
        keep(entries[upto]) ==> selected(
            entries,
            kept.push(entries[upto]),
            origin.push(upto),
            keep,
            upto + 1,
        ),
        !keep(entries[upto]) ==> selected(entries, kept, origin, keep, upto + 1),
{
    if keep(entries[upto]) {
        let kept2 = kept.push(entries[upto]);
        let origin2 = origin.push(upto);
        assert forall|j: int| 0 <= j < upto + 1 && keep(#[trigger] entries[j]) implies exists|
            k: int,
        | 0 <= k < kept2.len() && #[trigger] origin2[k] == j by {
            if j < upto {
                let k = choose|k: int| 0 <= k < kept.len() && #[trigger] origin[k] == j;
                assert(origin2[k] == j);
            } else {
                assert(origin2[kept.len() as int] == j);
            }
        }
        assert forall|k: int| 0 <= k < kept2.len() implies 0 <= #[trigger] origin2[k] < upto + 1
            && kept2[k] == entries[origin2[k]] && keep(entries[origin2[k]]) by {
            if k < kept.len() {
                assert(origin2[k] == origin[k]);
            }
        }
        assert forall|a: int, b: int| 0 <= a < b < kept2.len() implies origin2[a] < origin2[b] by {
            if b < kept.len() {
                assert(origin[a] < origin[b]);
            } else {
                assert(origin2[a] == origin[a]);
            }
        }
    } else {
        assert forall|j: int| 0 <= j < upto + 1 && keep(#[trigger] entries[j]) implies exists|
            k: int,
        | 0 <= k < kept.len() && #[trigger] origin[k] == j by {
            let k = choose|k: int| 0 <= k < kept.len() && #[trigger] origin[k] == j;
            assert(origin[k] == j);
        }
    }
}

/// A selection from a table is the table restricted to what `keep` accepts.
pub proof fn lemma_selected_map<T, V>(
    entries: Seq<T>,
    kept: Seq<T>,
    origin: Seq<int>,
    keep: spec_fn(T) -> bool,
    key: spec_fn(T) -> u64,
    value: spec_fn(T) -> V,
)
    requires
        ascending(entries, key),
        selected(entries, kept, origin, keep, entries.len() as int),
    ensures
        ascending(kept, key),
        forall|k: u64| #[trigger]
            index(kept, key, value).contains_key(k) <==> index(entries, key, value).contains_key(
                k,
            ) && keep(entries[place(entries, key, k)]),
        forall|k: u64| #[trigger]
            index(kept, key, value).contains_key(k) ==> index(kept, key, value)[k] == index(
                entries,
                key,
                value,
            )[k],
{
    assert(ascending(kept, key)) by {
        assert forall|a: int, b: int| 0 <= a < b < kept.len() implies key(kept[a]) < key(
            kept[b],
        ) by {
            assert(origin[a] < origin[b]);
            assert(key(entries[origin[a]]) < key(entries[origin[b]]));
        }
    }
    let small = index(kept, key, value);
    let large = index(entries, key, value);
    assert forall|k: u64| #[trigger]
        small.contains_key(k) <==> large.contains_key(k) && keep(
            entries[place(entries, key, k)],
        ) by {
        if holds(kept, key, k) {
            let at = place(kept, key, k);
            let from = origin[at];
            assert(key(entries[from]) == k);
            lemma_place(entries, key, from);
        }
        if holds(entries, key, k) && keep(entries[place(entries, key, k)]) {
            let from = place(entries, key, k);
            let at = choose|at: int| 0 <= at < kept.len() && #[trigger] origin[at] == from;
            assert(key(kept[at]) == k);
        }
    }
    assert forall|k: u64| #[trigger] small.contains_key(k) implies small[k] == large[k] by {
        let at = place(kept, key, k);
        let from = origin[at];
        lemma_entry(kept, key, value, at);
        assert(key(entries[from]) == k);
        lemma_entry(entries, key, value, from);
    }
}

/// In an ascending table an entry stands where its key is found.
pub proof fn lemma_place<T>(entries: Seq<T>, key: spec_fn(T) -> u64, i: int)
    requires
        ascending(entries, key),
        0 <= i < entries.len(),
    ensures
        holds(entries, key, key(entries[i])),
        place(entries, key, key(entries[i])) == i,
{
    let k = key(entries[i]);
    assert(holds(entries, key, k));
    let at = place(entries, key, k);
    if at < i {
        assert(key(entries[at]) < key(entries[i]));
    }
    if i < at {
        assert(key(entries[i]) < key(entries[at]));
    }
}

} // verus!
