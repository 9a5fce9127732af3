//! Lists whose items carry a 32-bit key that occurs at most once, read as
//! maps from key to value. Rooms are kept by room identifier and members by
//! SSRC in such lists.

use vstd::prelude::*;

verus! {

/// Some item of `s` has key `k`.
pub open spec fn has_key<T>(s: Seq<T>, key: spec_fn(T) -> u32, k: u32) -> bool {
    exists|i: int| 0 <= i < s.len() && #[trigger] key(s[i]) == k
}

/// The place of an item with key `k`, where there is one.
pub open spec fn place_of<T>(s: Seq<T>, key: spec_fn(T) -> u32, k: u32) -> int {
    choose|i: int| 0 <= i < s.len() && #[trigger] key(s[i]) == k
}

/// No key occurs twice.
pub open spec fn distinct_keys<T>(s: Seq<T>, key: spec_fn(T) -> u32) -> bool {
    forall|i: int, j: int|
        0 <= i < s.len() && 0 <= j < s.len() && i != j ==> #[trigger] key(s[i]) != #[trigger] key(
            s[j],
        )
}

/// The list read as a map: each key that occurs is mapped to the value of
/// the item that carries it.
pub open spec fn as_map<T, V>(s: Seq<T>, key: spec_fn(T) -> u32, val: spec_fn(T) -> V) -> Map<
    u32,
    V,
> {
    Map::new(|k: u32| has_key(s, key, k), |k: u32| val(s[place_of(s, key, k)]))
}

/// Each item is found under its own key.
pub proof fn lemma_item_is_mapped<T, V>(
    s: Seq<T>,
    key: spec_fn(T) -> u32,
    val: spec_fn(T) -> V,
    i: int,
)
    requires
        distinct_keys(s, key),
        0 <= i < s.len(),
    ensures
        has_key(s, key, key(s[i])),
        place_of(s, key, key(s[i])) == i,
        as_map(s, key, val).contains_key(key(s[i])),
        as_map(s, key, val)[key(s[i])] == val(s[i]),
{
    let k = key(s[i]);
    let j = place_of(s, key, k);
    assert(0 <= j < s.len() && key(s[j]) == k);
}

/// A key that no item carries is not mapped, and the other way round.
pub proof fn lemma_absent_key<T, V>(
    s: Seq<T>,
    key: spec_fn(T) -> u32,
    val: spec_fn(T) -> V,
    k: u32,
)
    ensures
        as_map(s, key, val).contains_key(k) <==> has_key(s, key, k),
        !has_key(s, key, k) <==> (forall|i: int| 0 <= i < s.len() ==> #[trigger] key(s[i]) != k),
{
}

/// The empty list is the empty map.
pub proof fn lemma_empty_is_empty<T, V>(key: spec_fn(T) -> u32, val: spec_fn(T) -> V)
    ensures
        as_map(Seq::<T>::empty(), key, val) == Map::<u32, V>::empty(),
        distinct_keys(Seq::<T>::empty(), key),
{
    assert(as_map(Seq::<T>::empty(), key, val) =~= Map::<u32, V>::empty());
}

/// Appending an item with a new key inserts it into the map.
pub proof fn lemma_push_inserts<T, V>(
    s: Seq<T>,
    key: spec_fn(T) -> u32,
    val: spec_fn(T) -> V,
    x: T,
)
    requires
        distinct_keys(s, key),
        !has_key(s, key, key(x)),
    ensures
        distinct_keys(s.push(x), key),
        as_map(s.push(x), key, val) == as_map(s, key, val).insert(key(x), val(x)),
{
    let t = s.push(x);
    assert forall|i: int, j: int| 0 <= i < t.len() && 0 <= j < t.len() && i != j implies key(t[i])
        != key(t[j]) by {
        if i < s.len() {
            assert(t[i] == s[i]);
        }
        if j < s.len() {
            assert(t[j] == s[j]);
        }
    }
    assert forall|k: u32| has_key(t, key, k) <==> (k == key(x) || has_key(s, key, k)) by {
        if has_key(t, key, k) {
            let i = place_of(t, key, k);
            if i < s.len() {
                assert(t[i] == s[i]);
            }
        }
        if k == key(x) {
            assert(key(t[s.len() as int]) == k);
        }
        if has_key(s, key, k) {
            let i = place_of(s, key, k);
            assert(t[i] == s[i]);
        }
    }
    assert forall|k: u32| has_key(t, key, k) implies val(t[place_of(t, key, k)]) == (if k == key(
        x,
    ) {
        val(x)
    } else {
        val(s[place_of(s, key, k)])
    }) by {
        let i = place_of(t, key, k);
        if k == key(x) {
            if i < s.len() {
                assert(t[i] == s[i]);
            }
        } else {
            assert(t[i] == s[i]);
            lemma_item_is_mapped(s, key, val, i);
        }
    }
    assert(as_map(t, key, val) =~= as_map(s, key, val).insert(key(x), val(x)));
}

/// Taking an item out removes its key from the map.
pub proof fn lemma_remove_removes<T, V>(
    s: Seq<T>,
    key: spec_fn(T) -> u32,
    val: spec_fn(T) -> V,
    i: int,
)
    requires
        distinct_keys(s, key),
        0 <= i < s.len(),
    ensures
        distinct_keys(s.remove(i), key),
        !has_key(s.remove(i), key, key(s[i])),
        as_map(s.remove(i), key, val) == as_map(s, key, val).remove(key(s[i])),
{
    let t = s.remove(i);
    let gone = key(s[i]);
    assert forall|a: int| 0 <= a < t.len() implies #[trigger] t[a] == s[if a < i {
        a
    } else {
        a + 1
    }] by {}
    assert forall|a: int, b: int| 0 <= a < t.len() && 0 <= b < t.len() && a != b implies key(t[a])
        != key(t[b]) by {
        let a2 = if a < i {
            a
        } else {
            a + 1
        };
        let b2 = if b < i {
            b
        } else {
            b + 1
        };
        assert(t[a] == s[a2] && t[b] == s[b2]);
    }
    assert forall|k: u32| has_key(t, key, k) <==> (k != gone && has_key(s, key, k)) by {
        if has_key(t, key, k) {
            let a = place_of(t, key, k);
            let a2 = if a < i {
                a
            } else {
                a + 1
            };
            assert(t[a] == s[a2]);
            assert(key(s[a2]) == k);
        }
        if k != gone && has_key(s, key, k) {
            let b = place_of(s, key, k);
            let a = if b < i {
                b
            } else {
                b - 1
            };
            assert(t[a] == s[b]);
            assert(key(t[a]) == k);
        }
    }
    assert forall|k: u32| has_key(t, key, k) implies val(t[place_of(t, key, k)]) == val(
        s[place_of(s, key, k)],
    ) by {
        let a = place_of(t, key, k);
        let a2 = if a < i {
            a
        } else {
            a + 1
        };
        assert(t[a] == s[a2]);
        lemma_item_is_mapped(s, key, val, a2);
    }
    assert(as_map(t, key, val) =~= as_map(s, key, val).remove(gone));
}

/// Replacing an item by one with the same key replaces its value in the map.
pub proof fn lemma_update_replaces<T, V>(
    s: Seq<T>,
    key: spec_fn(T) -> u32,
    val: spec_fn(T) -> V,
    i: int,
    y: T,
)
    requires
        distinct_keys(s, key),
        0 <= i < s.len(),
        key(y) == key(s[i]),
    ensures
        distinct_keys(s.update(i, y), key),
        as_map(s.update(i, y), key, val) == as_map(s, key, val).insert(key(y), val(y)),
{
    let t = s.update(i, y);
    assert forall|a: int| 0 <= a < t.len() implies key(#[trigger] t[a]) == key(s[a]) by {}
    assert forall|a: int, b: int| 0 <= a < t.len() && 0 <= b < t.len() && a != b implies key(t[a])
        != key(t[b]) by {
        assert(key(t[a]) == key(s[a]) && key(t[b]) == key(s[b]));
    }
    assert forall|k: u32| has_key(t, key, k) <==> has_key(s, key, k) by {
        if has_key(t, key, k) {
            let a = place_of(t, key, k);
            assert(key(t[a]) == key(s[a]));
        }
        if has_key(s, key, k) {
            let a = place_of(s, key, k);
            assert(key(t[a]) == key(s[a]));
        }
    }
    assert forall|k: u32| has_key(t, key, k) implies val(t[place_of(t, key, k)]) == (if k == key(
        y,
    ) {
        val(y)
    } else {
        val(s[place_of(s, key, k)])
    }) by {
        let a = place_of(t, key, k);
        lemma_item_is_mapped(t, key, val, a);
        assert(key(t[a]) == key(s[a]));
        lemma_item_is_mapped(s, key, val, a);
        if k != key(y) {
            assert(a != i);
        } else {
            lemma_item_is_mapped(s, key, val, i);
            assert(a == i);
        }
    }
    assert(as_map(t, key, val) =~= as_map(s, key, val).insert(key(y), val(y)));
}

/// A map read from a list has as many keys as the list has items.
pub proof fn lemma_map_is_finite<T, V>(s: Seq<T>, key: spec_fn(T) -> u32, val: spec_fn(T) -> V)
    requires
        distinct_keys(s, key),
    ensures
        as_map(s, key, val).dom().finite(),
        as_map(s, key, val).dom().len() == s.len(),
    decreases s.len(),
{
    if s.len() == 0 {
        assert(as_map(s, key, val).dom() =~= Set::<u32>::empty());
    } else {
        let i = s.len() - 1;
        lemma_remove_removes(s, key, val, i);
        lemma_map_is_finite(s.remove(i), key, val);
        lemma_item_is_mapped(s, key, val, i);
        assert(as_map(s, key, val).dom() =~= as_map(s.remove(i), key, val).dom().insert(
            key(s[i]),
        ));
    }
}

} // verus!
