use vstd::prelude::*;

verus! {

/// An entry of a sequence that serves as a map: its key and its value.
pub trait KeyedEntry {
    type Value;

    spec fn key(&self) -> Seq<char>;

    spec fn value(&self) -> Self::Value;
}

/// No two entries in `es` share a key.
pub open spec fn distinct_keys<T: KeyedEntry>(es: Seq<T>) -> bool {
    forall|i: int, j: int|
        0 <= i < es.len() && 0 <= j < es.len() && i != j ==> (#[trigger] es[i]).key()
            != (#[trigger] es[j]).key()
}

/// Some entry in `es` has key `s`.
pub open spec fn has_key<T: KeyedEntry>(es: Seq<T>, s: Seq<char>) -> bool {
    exists|i: int| 0 <= i < es.len() && (#[trigger] es[i]).key() == s
}

/// The values of the entries of `es`, by key.
pub open spec fn keyed<T: KeyedEntry>(es: Seq<T>) -> Map<Seq<char>, T::Value> {
    Map::new(
        |s: Seq<char>| has_key(es, s),
        |s: Seq<char>| es[choose|i: int| 0 <= i < es.len() && (#[trigger] es[i]).key() == s].value(),
    )
}

/// The entry at `i` gives the value of its key.
pub proof fn lemma_entry<T: KeyedEntry>(es: Seq<T>, i: int)
    requires
        distinct_keys(es),
        0 <= i < es.len(),
    ensures
        keyed(es).contains_key(es[i].key()),
        keyed(es)[es[i].key()] == es[i].value(),
{
    assert(has_key(es, es[i].key()));
    let j = choose|j: int| 0 <= j < es.len() && (#[trigger] es[j]).key() == es[i].key();
    assert(j == i);
}

/// Replacing the entry at `i` by one for the same key keeps keys
/// distinct and replaces the value of that key.
pub proof fn lemma_replace<T: KeyedEntry>(es0: Seq<T>, es: Seq<T>, i: int, g: T)
    requires
        distinct_keys(es0),
        0 <= i < es0.len(),
        es0[i].key() == g.key(),
        es == es0.update(i, g),
    ensures
        distinct_keys(es),
        keyed(es) == keyed(es0).insert(g.key(), g.value()),
{
    assert forall|a: int, b: int|
        0 <= a < es.len() && 0 <= b < es.len() && a != b implies (
    #[trigger] es[a]).key() != (#[trigger] es[b]).key() by {
        assert(es[a].key() == es0[a].key());
        assert(es[b].key() == es0[b].key());
    }
    let m = keyed(es0).insert(g.key(), g.value());
    assert forall|s: Seq<char>| #[trigger] keyed(es).contains_key(s)
        == m.contains_key(s) by {
        if has_key(es, s) {
            let k = choose|k: int| 0 <= k < es.len() && (#[trigger] es[k]).key() == s;
            assert(es0[k].key() == s);
        }
        if has_key(es0, s) {
            let k = choose|k: int| 0 <= k < es0.len() && (#[trigger] es0[k]).key() == s;
            assert(es[k].key() == s);
        }
        if s == g.key() {
            assert(es[i].key() == s);
        }
    }
    assert forall|s: Seq<char>| #[trigger] keyed(es).contains_key(s)
        implies keyed(es)[s] == m[s] by {
        let k = choose|k: int| 0 <= k < es.len() && (#[trigger] es[k]).key() == s;
        lemma_entry(es, k);
        if k != i {
            lemma_entry(es0, k);
        }
    }
    assert(keyed(es) =~= m);
}

/// Appending an entry for a new key keeps keys distinct and adds
/// that key's entry.
pub proof fn lemma_append<T: KeyedEntry>(es0: Seq<T>, es: Seq<T>, g: T)
    requires
        distinct_keys(es0),
        !has_key(es0, g.key()),
        es == es0.push(g),
    ensures
        distinct_keys(es),
        keyed(es) == keyed(es0).insert(g.key(), g.value()),
{
    assert forall|a: int, b: int|
        0 <= a < es.len() && 0 <= b < es.len() && a != b implies (
    #[trigger] es[a]).key() != (#[trigger] es[b]).key() by {
        if a == es0.len() {
            assert(es0[b] == es[b]);
        } else if b == es0.len() {
            assert(es0[a] == es[a]);
        }
    }
    let m = keyed(es0).insert(g.key(), g.value());
    assert forall|s: Seq<char>| #[trigger] keyed(es).contains_key(s)
        == m.contains_key(s) by {
        if has_key(es, s) {
            let k = choose|k: int| 0 <= k < es.len() && (#[trigger] es[k]).key() == s;
            if k < es0.len() {
                assert(es0[k].key() == s);
            }
        }
        if has_key(es0, s) {
            let k = choose|k: int| 0 <= k < es0.len() && (#[trigger] es0[k]).key() == s;
            assert(es[k].key() == s);
        }
        if s == g.key() {
            assert(es[es0.len() as int].key() == s);
        }
    }
    assert forall|s: Seq<char>| #[trigger] keyed(es).contains_key(s)
        implies keyed(es)[s] == m[s] by {
        let k = choose|k: int| 0 <= k < es.len() && (#[trigger] es[k]).key() == s;
        lemma_entry(es, k);
        if k < es0.len() {
            lemma_entry(es0, k);
        }
    }
    assert(keyed(es) =~= m);
}

} // verus!
