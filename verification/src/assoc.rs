//! Association lists: sequences of key/value pairs with distinct keys, read
//! as finite maps, and a lookup of string keys in them.
use vstd::prelude::*;
use crate::text::str_eq;

verus! {

/// No key occurs twice.
pub open spec fn keys_distinct<K, V>(s: Seq<(K, V)>) -> bool {
    forall|i: int, j: int| 0 <= i < j < s.len() ==> s[i].0 != s[j].0
}

/// The map that the pairs describe (a later pair wins over an earlier one).
pub open spec fn pairs_map<K, V>(s: Seq<(K, V)>) -> Map<K, V>
    decreases s.len(),
{
    if s.len() == 0 {
        Map::empty()
    } else {
        pairs_map(s.drop_last()).insert(s.last().0, s.last().1)
    }
}

/// The texts of string keys and string values.
pub open spec fn text_pairs(s: Seq<(String, String)>) -> Seq<(Seq<char>, Seq<char>)> {
    s.map_values(|p: (String, String)| (p.0@, p.1@))
}

/// With distinct keys, the map holds exactly the listed keys, each with its
/// listed value, and has as many keys as the list has pairs.
pub proof fn lemma_pairs_map<K, V>(s: Seq<(K, V)>)
    requires
        keys_distinct(s),
    ensures
        forall|i: int| 0 <= i < s.len() ==> #[trigger] pairs_map(s).contains_key(s[i].0) && pairs_map(s)[s[i].0] == s[i].1,
        forall|k: K| #[trigger] pairs_map(s).contains_key(k) ==> exists|i: int| 0 <= i < s.len() && s[i].0 == k,
        pairs_map(s).dom().finite(),
        pairs_map(s).dom().len() == s.len(),
    decreases s.len(),
{
    if s.len() > 0 {
        let t = s.drop_last();
        assert(keys_distinct(t));
        lemma_pairs_map(t);
        let m = pairs_map(t);
        assert(!m.contains_key(s.last().0)) by {
            if m.contains_key(s.last().0) {
                let i = choose|i: int| 0 <= i < t.len() && t[i].0 == s.last().0;
                assert(s[i].0 == s[s.len() - 1].0);
            }
        }
        assert forall|i: int| 0 <= i < s.len() implies #[trigger] pairs_map(s).contains_key(s[i].0) && pairs_map(s)[s[i].0] == s[i].1 by {
            if i < s.len() - 1 {
                assert(t[i] == s[i]);
            }
        }
        assert forall|k: K| #[trigger] pairs_map(s).contains_key(k) implies exists|i: int| 0 <= i < s.len() && s[i].0 == k by {
            if k != s.last().0 {
                let i = choose|i: int| 0 <= i < t.len() && t[i].0 == k;
                assert(s[i] == t[i]);
            } else {
                assert(s[s.len() - 1].0 == k);
            }
        }
    }
}

/// A key that no pair holds is not in the map.
pub proof fn lemma_pairs_map_absent<K, V>(s: Seq<(K, V)>, k: K)
    requires
        forall|i: int| 0 <= i < s.len() ==> s[i].0 != k,
    ensures
        !pairs_map(s).contains_key(k),
    decreases s.len(),
{
    if s.len() > 0 {
        lemma_pairs_map_absent(s.drop_last(), k);
    }
}

/// Replacing the value at position `i` (keeping its key) updates the map
/// at that key.
pub proof fn lemma_pairs_map_update<K, V>(s: Seq<(K, V)>, i: int, v: V)
    requires
        keys_distinct(s),
        0 <= i < s.len(),
    ensures
        pairs_map(s.update(i, (s[i].0, v))) == pairs_map(s).insert(s[i].0, v),
        keys_distinct(s.update(i, (s[i].0, v))),
{
    let u = s.update(i, (s[i].0, v));
    assert(keys_distinct(u));
    lemma_pairs_map(s);
    lemma_pairs_map(u);
    let a = pairs_map(u);
    let b = pairs_map(s).insert(s[i].0, v);
    assert forall|k: K| a.contains_key(k) <==> b.contains_key(k) by {
        if a.contains_key(k) {
            let j = choose|j: int| 0 <= j < u.len() && u[j].0 == k;
            assert(s[j].0 == k);
        }
        if b.contains_key(k) && k != s[i].0 {
            let j = choose|j: int| 0 <= j < s.len() && s[j].0 == k;
            assert(u[j].0 == k);
        }
        if k == s[i].0 {
            assert(u[i].0 == k);
        }
    }
    assert forall|k: K| #[trigger] a.contains_key(k) implies a[k] == b[k] by {
        let j = choose|j: int| 0 <= j < u.len() && u[j].0 == k;
        if j != i {
            assert(u[j] == s[j]);
        }
    }
    assert(a =~= b);
}

/// Appending a pair with a new key adds that key to the map.
pub proof fn lemma_pairs_map_push<K, V>(s: Seq<(K, V)>, k: K, v: V)
    requires
        keys_distinct(s),
        forall|i: int| 0 <= i < s.len() ==> s[i].0 != k,
    ensures
        pairs_map(s.push((k, v))) == pairs_map(s).insert(k, v),
        keys_distinct(s.push((k, v))),
{
    assert(s.push((k, v)).drop_last() =~= s);
    assert forall|i: int, j: int| 0 <= i < j < s.push((k, v)).len() implies s.push((k, v))[i].0 != s.push((k, v))[j].0 by {
        if j == s.len() {
            assert(s.push((k, v))[i] == s[i]);
        }
    }
}

/// Removing the pair at position `i` removes its key from the map.
pub proof fn lemma_pairs_map_remove<K, V>(s: Seq<(K, V)>, i: int)
    requires
        keys_distinct(s),
        0 <= i < s.len(),
    ensures
        pairs_map(s.remove(i)) == pairs_map(s).remove(s[i].0),
        keys_distinct(s.remove(i)),
{
    let u = s.remove(i);
    assert forall|a: int, b: int| 0 <= a < b < u.len() implies u[a].0 != u[b].0 by {
        let a2 = if a < i { a } else { a + 1 };
        let b2 = if b < i { b } else { b + 1 };
        assert(u[a] == s[a2] && u[b] == s[b2]);
    }
    lemma_pairs_map(s);
    lemma_pairs_map(u);
    let m1 = pairs_map(u);
    let m2 = pairs_map(s).remove(s[i].0);
    assert forall|k: K| m1.contains_key(k) <==> m2.contains_key(k) by {
        if m1.contains_key(k) {
            let j = choose|j: int| 0 <= j < u.len() && u[j].0 == k;
            let j2 = if j < i { j } else { j + 1 };
            assert(u[j] == s[j2]);
            assert(j2 != i);
        }
        if m2.contains_key(k) {
            let j = choose|j: int| 0 <= j < s.len() && s[j].0 == k;
            assert(j != i);
            if j < i {
                assert(u[j] == s[j]);
            } else {
                assert(u[j - 1] == s[j]);
            }
        }
    }
    assert forall|k: K| #[trigger] m1.contains_key(k) implies m1[k] == m2[k] by {
        let j = choose|j: int| 0 <= j < u.len() && u[j].0 == k;
        let j2 = if j < i { j } else { j + 1 };
        assert(u[j] == s[j2]);
    }
    assert(m1 =~= m2);
}

/// Looks up a string key.
pub fn find_key<V>(entries: &Vec<(String, V)>, key: &str) -> (r: Option<usize>)
    ensures
        match r {
            Some(i) => i < entries@.len() && entries@[i as int].0@ == key@,
            None => forall|i: int| 0 <= i < entries@.len() ==> entries@[i].0@ != key@,
        },
{
    let mut i: usize = 0;
    while i < entries.len()
        invariant
            i <= entries@.len(),
            forall|j: int| 0 <= j < i ==> entries@[j].0@ != key@,
        decreases entries@.len() - i,
    {
        if str_eq(entries[i].0.as_str(), key) {
            return Some(i);
        }
        i = i + 1;
    }
    None
}

/// Relates a search result in the pairs with the map they describe.
pub proof fn lemma_pairs_lookup<K, V>(s: Seq<(K, V)>, key: K, found: Option<usize>)
    requires
        keys_distinct(s),
        match found {
            Some(i) => i < s.len() && s[i as int].0 == key,
            None => forall|i: int| 0 <= i < s.len() ==> s[i].0 != key,
        },
    ensures
        pairs_map(s).contains_key(key) == found is Some,
        found matches Some(i) ==> pairs_map(s)[key] == s[i as int].1,
{
    lemma_pairs_map(s);
    if found is None {
        lemma_pairs_map_absent(s, key);
    }
}

/// Relates a lookup of a key among string pairs with the map over their
/// texts.
pub proof fn lemma_text_pairs_lookup(s: Seq<(String, String)>, key: Seq<char>, found: Option<usize>)
    requires
        keys_distinct(text_pairs(s)),
        match found {
            Some(i) => i < s.len() && s[i as int].0@ == key,
            None => forall|i: int| 0 <= i < s.len() ==> s[i].0@ != key,
        },
    ensures
        pairs_map(text_pairs(s)).contains_key(key) == found is Some,
        found matches Some(i) ==> pairs_map(text_pairs(s))[key] == s[i as int].1@,
{
    let t = text_pairs(s);
    match found {
        Some(i) => {
            assert(t[i as int].0 == key);
        },
        None => {
            assert forall|i: int| 0 <= i < t.len() implies t[i].0 != key by {
                assert(t[i].0 == s[i].0@);
            }
        },
    }
    lemma_pairs_lookup(t, key, found);
}

} // verus!
