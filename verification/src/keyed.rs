//! Sequences whose elements are identified by a string key, used as maps that keep insertion order.
use vstd::prelude::*;
use crate::text::str_eq;

verus! {

/// No two elements share a key.
pub open spec fn keys_unique<T>(s: Seq<T>, key: spec_fn(T) -> Seq<char>) -> bool {
    forall|i: int, j: int| 0 <= i < s.len() && 0 <= j < s.len() && i != j ==> key(s[i]) != key(s[j])
}

/// Some element has key `k`.
pub open spec fn has_key<T>(s: Seq<T>, key: spec_fn(T) -> Seq<char>, k: Seq<char>) -> bool {
    exists|i: int| 0 <= i < s.len() && key(s[i]) == k
}

/// The position of an element with key `k` (meaningful when there is one).
pub open spec fn index_of_key<T>(s: Seq<T>, key: spec_fn(T) -> Seq<char>, k: Seq<char>) -> int {
    choose|i: int| 0 <= i < s.len() && key(s[i]) == k
}

/// The element with key `k`, if any.
pub open spec fn lookup<T>(s: Seq<T>, key: spec_fn(T) -> Seq<char>, k: Seq<char>) -> Option<T> {
    if has_key(s, key, k) {
        Some(s[index_of_key(s, key, k)])
    } else {
        None
    }
}

/// In a sequence with unique keys, the element at `i` is the one found under its key.
pub proof fn lemma_lookup_at<T>(s: Seq<T>, key: spec_fn(T) -> Seq<char>, k: Seq<char>, i: int)
    requires
        keys_unique(s, key),
        0 <= i < s.len(),
        key(s[i]) == k,
    ensures
        has_key(s, key, k),
        index_of_key(s, key, k) == i,
        lookup(s, key, k) == Some(s[i]),
{
    assert(has_key(s, key, k));
    let j = index_of_key(s, key, k);
    assert(0 <= j < s.len() && key(s[j]) == k);
    if j != i {
        assert(key(s[i]) != key(s[j]));
    }
}

/// A key that no element carries is not found.
pub proof fn lemma_lookup_absent<T>(s: Seq<T>, key: spec_fn(T) -> Seq<char>, k: Seq<char>)
    requires
        forall|i: int| 0 <= i < s.len() ==> key(#[trigger] s[i]) != k,
    ensures
        !has_key(s, key, k),
        lookup(s, key, k) is None,
{
}

/// Replacing an element by one with the same key keeps keys unique.
pub proof fn lemma_update_same_key<T>(s: Seq<T>, key: spec_fn(T) -> Seq<char>, i: int, v: T)
    requires
        keys_unique(s, key),
        0 <= i < s.len(),
        key(v) == key(s[i]),
    ensures
        keys_unique(s.update(i, v), key),
{
    let t = s.update(i, v);
    assert forall|a: int, b: int| 0 <= a < t.len() && 0 <= b < t.len() && a != b implies key(t[a]) != key(t[b]) by {
        assert(key(t[a]) == key(s[a]));
        assert(key(t[b]) == key(s[b]));
    }
}

/// Appending an element under a fresh key keeps keys unique.
pub proof fn lemma_push_fresh_key<T>(s: Seq<T>, key: spec_fn(T) -> Seq<char>, v: T)
    requires
        keys_unique(s, key),
        !has_key(s, key, key(v)),
    ensures
        keys_unique(s.push(v), key),
{
    let t = s.push(v);
    assert forall|a: int, b: int| 0 <= a < t.len() && 0 <= b < t.len() && a != b implies key(t[a]) != key(t[b]) by {
        if a == s.len() {
            assert(key(t[b]) == key(s[b]));
        } else if b == s.len() {
            assert(key(t[a]) == key(s[a]));
        } else {
            assert(key(t[a]) == key(s[a]));
            assert(key(t[b]) == key(s[b]));
        }
    }
}

/// Removing an element keeps keys unique, and its key is no longer present.
pub proof fn lemma_remove_key<T>(s: Seq<T>, key: spec_fn(T) -> Seq<char>, i: int)
    requires
        keys_unique(s, key),
        0 <= i < s.len(),
    ensures
        keys_unique(s.remove(i), key),
        !has_key(s.remove(i), key, key(s[i])),
        forall|k: Seq<char>| k != key(s[i]) ==> #[trigger] lookup(s.remove(i), key, k) == lookup(s, key, k),
{
    let t = s.remove(i);
    assert forall|a: int, b: int| 0 <= a < t.len() && 0 <= b < t.len() && a != b implies key(t[a]) != key(t[b]) by {
        let a2 = if a < i { a } else { a + 1 };
        let b2 = if b < i { b } else { b + 1 };
        assert(t[a] == s[a2]);
        assert(t[b] == s[b2]);
    }
    assert forall|j: int| 0 <= j < t.len() implies key(#[trigger] t[j]) != key(s[i]) by {
        let j2 = if j < i { j } else { j + 1 };
        assert(t[j] == s[j2]);
    }
    assert forall|k: Seq<char>| k != key(s[i]) implies #[trigger] lookup(t, key, k) == lookup(s, key, k) by {
        if has_key(s, key, k) {
            let j = index_of_key(s, key, k);
            assert(0 <= j < s.len() && key(s[j]) == k);
            assert(j != i);
            let j2 = if j < i { j } else { j - 1 };
            assert(t[j2] == s[j]);
            lemma_lookup_at(t, key, k, j2);
            lemma_lookup_at(s, key, k, j);
        } else {
            assert forall|j: int| 0 <= j < t.len() implies key(#[trigger] t[j]) != k by {
                let j2 = if j < i { j } else { j + 1 };
                assert(t[j] == s[j2]);
            }
        }
    }
}

/// Lookup after replacing the element with key `key(v)`.
pub proof fn lemma_lookup_after_update<T>(s: Seq<T>, key: spec_fn(T) -> Seq<char>, i: int, v: T)
    requires
        keys_unique(s, key),
        0 <= i < s.len(),
        key(v) == key(s[i]),
    ensures
        forall|k: Seq<char>| #[trigger] lookup(s.update(i, v), key, k)
            == if k == key(v) { Some(v) } else { lookup(s, key, k) },
{
    let t = s.update(i, v);
    lemma_update_same_key(s, key, i, v);
    assert forall|k: Seq<char>| #[trigger] lookup(t, key, k) == if k == key(v) { Some(v) } else { lookup(s, key, k) } by {
        if k == key(v) {
            lemma_lookup_at(t, key, k, i);
        } else if has_key(s, key, k) {
            let j = index_of_key(s, key, k);
            lemma_lookup_at(s, key, k, j);
            lemma_lookup_at(t, key, k, j);
        } else {
            assert forall|j: int| 0 <= j < t.len() implies key(#[trigger] t[j]) != k by {
                if j != i {
                    assert(t[j] == s[j]);
                }
            }
        }
    }
}

/// Lookup after appending an element under a fresh key.
pub proof fn lemma_lookup_after_push<T>(s: Seq<T>, key: spec_fn(T) -> Seq<char>, v: T)
    requires
        keys_unique(s, key),
        !has_key(s, key, key(v)),
    ensures
        forall|k: Seq<char>| #[trigger] lookup(s.push(v), key, k)
            == if k == key(v) { Some(v) } else { lookup(s, key, k) },
{
    let t = s.push(v);
    lemma_push_fresh_key(s, key, v);
    assert forall|k: Seq<char>| #[trigger] lookup(t, key, k) == if k == key(v) { Some(v) } else { lookup(s, key, k) } by {
        if k == key(v) {
            lemma_lookup_at(t, key, k, s.len() as int);
        } else if has_key(s, key, k) {
            let j = index_of_key(s, key, k);
            lemma_lookup_at(s, key, k, j);
            assert(t[j] == s[j]);
            lemma_lookup_at(t, key, k, j);
        } else {
            assert forall|j: int| 0 <= j < t.len() implies key(#[trigger] t[j]) != k by {
                if j < s.len() {
                    assert(t[j] == s[j]);
                }
            }
        }
    }
}


/// The key of an entry of a string-keyed table.
pub open spec fn pair_key<V>() -> spec_fn((String, V)) -> Seq<char> {
    |p: (String, V)| p.0@
}

/// The value filed under `k` in a string-keyed table.
pub open spec fn table_get<V>(t: Seq<(String, V)>, k: Seq<char>) -> Option<V> {
    match lookup(t, pair_key::<V>(), k) {
        Some(p) => Some(p.1),
        None => None,
    }
}

/// The table after filing `v` under `k`: an existing entry is replaced in place, a new one appended.
pub open spec fn table_insert<V>(t: Seq<(String, V)>, k: String, v: V) -> Seq<(String, V)> {
    if has_key(t, pair_key::<V>(), k@) {
        t.update(index_of_key(t, pair_key::<V>(), k@), (k, v))
    } else {
        t.push((k, v))
    }
}

/// The table without the entry for `k`.
pub open spec fn table_remove<V>(t: Seq<(String, V)>, k: Seq<char>) -> Seq<(String, V)> {
    if has_key(t, pair_key::<V>(), k) {
        t.remove(index_of_key(t, pair_key::<V>(), k))
    } else {
        t
    }
}

/// The position of the entry for `k`.
pub fn table_find<V>(t: &Vec<(String, V)>, k: &str) -> (res: Option<usize>)
    requires
        keys_unique(t@, pair_key::<V>()),
    ensures
        match res {
            Some(i) => i < t@.len() && t@[i as int].0@ == k@ && index_of_key(t@, pair_key::<V>(), k@) == i
                && has_key(t@, pair_key::<V>(), k@),
            None => !has_key(t@, pair_key::<V>(), k@),
        },
{
    let mut i: usize = 0;
    while i < t.len()
        invariant
            keys_unique(t@, pair_key::<V>()),
            i <= t@.len(),
            forall|j: int| 0 <= j < i ==> (#[trigger] t@[j]).0@ != k@,
        decreases t@.len() - i,
    {
        if str_eq(t[i].0.as_str(), k) {
            proof { lemma_lookup_at(t@, pair_key::<V>(), k@, i as int); }
            return Some(i);
        }
        i = i + 1;
    }
    proof { lemma_lookup_absent(t@, pair_key::<V>(), k@); }
    None
}

/// Files `v` under `k`, replacing an existing entry in place.
pub fn table_insert_exec<V>(t: &mut Vec<(String, V)>, k: String, v: V)
    requires
        keys_unique(old(t)@, pair_key::<V>()),
    ensures
        keys_unique(final(t)@, pair_key::<V>()),
        final(t)@ == table_insert(old(t)@, k, v),
{
    let ghost before = t@;
    let ghost kv = (k, v);
    match table_find(t, k.as_str()) {
        Some(i) => {
            proof { lemma_update_same_key(before, pair_key::<V>(), i as int, kv); }
            t.set(i, (k, v));
        },
        None => {
            proof { lemma_push_fresh_key(before, pair_key::<V>(), kv); }
            t.push((k, v));
        },
    }
}

/// Removes the entry for `k` and hands back its value.
pub fn table_remove_exec<V>(t: &mut Vec<(String, V)>, k: &str) -> (res: Option<V>)
    requires
        keys_unique(old(t)@, pair_key::<V>()),
    ensures
        keys_unique(final(t)@, pair_key::<V>()),
        final(t)@ == table_remove(old(t)@, k@),
        res == table_get(old(t)@, k@),
{
    let ghost before = t@;
    match table_find(t, k) {
        Some(i) => {
            proof {
                lemma_remove_key(before, pair_key::<V>(), i as int);
                lemma_lookup_at(before, pair_key::<V>(), k@, i as int);
            }
            let (_, v) = t.remove(i);
            Some(v)
        },
        None => None,
    }
}

/// Reading a table after filing a value.
pub proof fn lemma_table_get_insert<V>(t: Seq<(String, V)>, k: String, v: V, q: Seq<char>)
    requires
        keys_unique(t, pair_key::<V>()),
    ensures
        table_get(table_insert(t, k, v), q) == if q == k@ { Some(v) } else { table_get(t, q) },
{
    if has_key(t, pair_key::<V>(), k@) {
        let i = index_of_key(t, pair_key::<V>(), k@);
        lemma_lookup_after_update(t, pair_key::<V>(), i, (k, v));
        assert(lookup(t.update(i, (k, v)), pair_key::<V>(), q) == if q == k@ { Some((k, v)) } else { lookup(t, pair_key::<V>(), q) });
    } else {
        lemma_lookup_after_push(t, pair_key::<V>(), (k, v));
        assert(lookup(t.push((k, v)), pair_key::<V>(), q) == if q == k@ { Some((k, v)) } else { lookup(t, pair_key::<V>(), q) });
    }
}

/// Reading a table after removing an entry.
pub proof fn lemma_table_get_remove<V>(t: Seq<(String, V)>, k: Seq<char>, q: Seq<char>)
    requires
        keys_unique(t, pair_key::<V>()),
    ensures
        table_get(table_remove(t, k), q) == if q == k { None } else { table_get(t, q) },
        keys_unique(table_remove(t, k), pair_key::<V>()),
{
    if has_key(t, pair_key::<V>(), k) {
        let i = index_of_key(t, pair_key::<V>(), k);
        assert(0 <= i < t.len() && t[i].0@ == k);
        lemma_remove_key(t, pair_key::<V>(), i);
        if q != k {
            assert(lookup(t.remove(i), pair_key::<V>(), q) == lookup(t, pair_key::<V>(), q));
        }
    }
}


/// The position of the first entry of a string-keyed table filed under `k`.
pub open spec fn first_index_of<V>(t: Seq<(String, V)>, k: Seq<char>) -> Option<int> {
    if exists|i: int| 0 <= i < t.len() && t[i].0@ == k {
        Some(choose|i: int| 0 <= i < t.len() && t[i].0@ == k && forall|j: int| 0 <= j < i ==> t[j].0@ != k)
    } else {
        None
    }
}

/// The value of the first entry of a string-keyed table filed under `k`.
pub open spec fn first_value<V>(t: Seq<(String, V)>, k: Seq<char>) -> Option<V> {
    match first_index_of(t, k) {
        Some(i) => Some(t[i].1),
        None => None,
    }
}

/// The first entry at `i` settles the first index.
pub proof fn lemma_first_index_at<V>(t: Seq<(String, V)>, k: Seq<char>, i: int)
    requires
        0 <= i < t.len(),
        t[i].0@ == k,
        forall|j: int| 0 <= j < i ==> (#[trigger] t[j]).0@ != k,
    ensures
        first_index_of(t, k) == Some(i),
{
    let c = choose|c: int| 0 <= c < t.len() && t[c].0@ == k && forall|j: int| 0 <= j < c ==> t[j].0@ != k;
    assert(0 <= c < t.len() && t[c].0@ == k && forall|j: int| 0 <= j < c ==> t[j].0@ != k);
    if c < i {
        assert(t[c].0@ != k);
    }
    if c > i {
        assert(t[i].0@ != k);
    }
}

/// The position of the first entry filed under `k`.
pub fn find_first<V>(t: &Vec<(String, V)>, k: &str) -> (res: Option<usize>)
    ensures
        match first_index_of(t@, k@) {
            Some(i) => res == Some(i as usize),
            None => res is None,
        },
        match res {
            Some(i) => i < t@.len() && t@[i as int].0@ == k@ && forall|j: int| 0 <= j < i ==> (#[trigger] t@[j]).0@ != k@,
            None => forall|j: int| 0 <= j < t@.len() ==> (#[trigger] t@[j]).0@ != k@,
        },
{
    let mut i: usize = 0;
    while i < t.len()
        invariant
            i <= t@.len(),
            forall|j: int| 0 <= j < i ==> (#[trigger] t@[j]).0@ != k@,
        decreases t@.len() - i,
    {
        if str_eq(t[i].0.as_str(), k) {
            proof { lemma_first_index_at(t@, k@, i as int); }
            return Some(i);
        }
        i = i + 1;
    }
    None
}

} // verus!

