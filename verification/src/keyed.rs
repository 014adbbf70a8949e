//! Small maps from strings to values, kept as vectors of pairs with no key
//! twice, and seen as `Map`s.
use vstd::prelude::*;

verus! {

/// No key occurs twice.
pub open spec fn keys_unique<V>(s: Seq<(String, V)>) -> bool {
    forall|i: int, j: int| 0 <= i < j < s.len() ==> (#[trigger] s[i]).0@ != (#[trigger] s[j]).0@
}

/// The position of key `k`, if present.
pub open spec fn key_index<V>(s: Seq<(String, V)>, k: Seq<char>) -> Option<int> {
    if exists|i: int| 0 <= i < s.len() && (#[trigger] s[i]).0@ == k {
        Some(choose|i: int| 0 <= i < s.len() && (#[trigger] s[i]).0@ == k)
    } else {
        None
    }
}

/// The pairs as a map.
pub open spec fn keyed_map<V>(s: Seq<(String, V)>) -> Map<Seq<char>, V> {
    Map::new(|k: Seq<char>| key_index(s, k) is Some, |k: Seq<char>| s[key_index(s, k)->0].1)
}

pub proof fn lemma_index_at<V>(s: Seq<(String, V)>, i: int)
    requires
        keys_unique(s),
        0 <= i < s.len(),
    ensures
        key_index(s, s[i].0@) == Some(i),
{
    let k = s[i].0@;
    let c = choose|j: int| 0 <= j < s.len() && (#[trigger] s[j]).0@ == k;
    if c != i {
        if c < i {
            assert(s[c].0@ != s[i].0@);
        } else {
            assert(s[i].0@ != s[c].0@);
        }
    }
}

/// With no key twice, the map has one entry per pair.
pub proof fn lemma_keyed_len<V>(s: Seq<(String, V)>)
    requires
        keys_unique(s),
    ensures
        keyed_map(s).len() == s.len(),
{
    let ks = s.map_values(|p: (String, V)| p.0@);
    assert forall|i: int, j: int| 0 <= i < ks.len() && 0 <= j < ks.len() && i != j implies ks[i] != ks[j] by {
        if i < j {
            assert(s[i].0@ != s[j].0@);
        } else {
            assert(s[j].0@ != s[i].0@);
        }
    }
    ks.unique_seq_to_set();
    assert forall|k: Seq<char>| #[trigger] keyed_map(s).dom().contains(k) <==> ks.to_set().contains(k) by {
        if ks.to_set().contains(k) {
            let i = choose|i: int| 0 <= i < ks.len() && ks[i] == k;
            assert(s[i].0@ == k);
        }
        if keyed_map(s).dom().contains(k) {
            let i = choose|i: int| 0 <= i < s.len() && (#[trigger] s[i]).0@ == k;
            assert(ks[i] == k);
        }
    }
    assert(keyed_map(s).dom() =~= ks.to_set());
}

/// The position of key `k`.
pub fn find_key<V>(s: &Vec<(String, V)>, k: &String) -> (r: Option<usize>)
    requires
        keys_unique(s@),
    ensures
        match r {
            Some(i) => i < s@.len() && key_index(s@, k@) == Some(i as int),
            None => key_index(s@, k@) is None,
        },
{
    let mut i: usize = 0;
    while i < s.len()
        invariant
            keys_unique(s@),
            i <= s@.len(),
            forall|j: int| 0 <= j < i ==> (#[trigger] s@[j]).0@ != k@,
        decreases s@.len() - i,
    {
        if s[i].0 == *k {
            proof {
                lemma_index_at(s@, i as int);
            }
            return Some(i);
        }
        i = i + 1;
    }
    None
}

/// Whether key `k` is present.
pub fn has_key<V>(s: &Vec<(String, V)>, k: &String) -> (r: bool)
    requires
        keys_unique(s@),
    ensures
        r == keyed_map(s@).contains_key(k@),
{
    find_key(s, k).is_some()
}

/// Removes key `k`, giving back its value.
pub fn remove_key<V>(s: &mut Vec<(String, V)>, k: &String) -> (r: Option<V>)
    requires
        keys_unique(old(s)@),
    ensures
        keys_unique(final(s)@),
        keyed_map(final(s)@) == keyed_map(old(s)@).remove(k@),
        r is Some == keyed_map(old(s)@).contains_key(k@),
        r matches Some(v) ==> v == keyed_map(old(s)@)[k@],
{
    let ghost s0 = s@;
    match find_key(s, k) {
        None => {
            assert(keyed_map(s0) =~= keyed_map(s0).remove(k@));
            None
        },
        Some(i) => {
            let (_, v) = s.remove(i);
            proof {
                let s1 = s@;
                assert forall|a: int, b: int| 0 <= a < b < s1.len() implies (#[trigger] s1[a]).0@ != (
                #[trigger] s1[b]).0@ by {
                    let a0 = if a < i { a } else { a + 1 };
                    let b0 = if b < i { b } else { b + 1 };
                    assert(s1[a] == s0[a0] && s1[b] == s0[b0]);
                }
                assert forall|key: Seq<char>| #[trigger] keyed_map(s1).contains_key(key) <==> keyed_map(
                    s0,
                ).remove(k@).contains_key(key) by {
                    if keyed_map(s1).contains_key(key) {
                        let j = choose|j: int| 0 <= j < s1.len() && (#[trigger] s1[j]).0@ == key;
                        let j0 = if j < i { j } else { j + 1 };
                        assert(s1[j] == s0[j0]);
                        lemma_index_at(s0, j0);
                    }
                    if keyed_map(s0).remove(k@).contains_key(key) {
                        let j0 = choose|j: int| 0 <= j < s0.len() && (#[trigger] s0[j]).0@ == key;
                        lemma_index_at(s0, j0);
                        let j = if j0 < i { j0 } else { j0 - 1 };
                        assert(s1[j] == s0[j0]);
                    }
                }
                assert forall|key: Seq<char>| #[trigger] keyed_map(s1).contains_key(key) implies keyed_map(
                    s1,
                )[key] == keyed_map(s0).remove(k@)[key] by {
                    let j = choose|j: int| 0 <= j < s1.len() && (#[trigger] s1[j]).0@ == key;
                    let j0 = if j < i { j } else { j + 1 };
                    assert(s1[j] == s0[j0]);
                    lemma_index_at(s1, j);
                    lemma_index_at(s0, j0);
                }
                assert(keyed_map(s1) =~= keyed_map(s0).remove(k@));
                lemma_index_at(s0, i as int);
            }
            Some(v)
        },
    }
}

/// Sets key `k` to `v` (the stored key is kept when present).
pub fn insert_key<V>(s: &mut Vec<(String, V)>, k: String, v: V)
    requires
        keys_unique(old(s)@),
    ensures
        keys_unique(final(s)@),
        keyed_map(final(s)@) == keyed_map(old(s)@).insert(k@, v),
{
    let ghost s0 = s@;
    match find_key(s, &k) {
        Some(i) => {
            let (old_key, _) = s.remove(i);
            s.insert(i, (old_key, v));
            proof {
                let s1 = s@;
                assert forall|j: int| 0 <= j < s1.len() implies (#[trigger] s1[j]).0@ == s0[j].0@ by {
                    if j != i {
                        assert(s1[j] == s0[j]);
                    }
                }
                assert forall|a: int, b: int| 0 <= a < b < s1.len() implies (#[trigger] s1[a]).0@ != (
                #[trigger] s1[b]).0@ by {
                    assert(s1[a].0@ == s0[a].0@ && s1[b].0@ == s0[b].0@);
                }
                assert forall|key: Seq<char>| #[trigger] keyed_map(s1).contains_key(key) <==> keyed_map(
                    s0,
                ).insert(k@, v).contains_key(key) by {
                    if keyed_map(s1).contains_key(key) {
                        let j = choose|j: int| 0 <= j < s1.len() && (#[trigger] s1[j]).0@ == key;
                        assert(s0[j].0@ == key);
                    }
                    if keyed_map(s0).insert(k@, v).contains_key(key) && key != k@ {
                        let j = choose|j: int| 0 <= j < s0.len() && (#[trigger] s0[j]).0@ == key;
                        assert(s1[j].0@ == key);
                    }
                    if key == k@ {
                        lemma_index_at(s0, i as int);
                        assert(s1[i as int].0@ == key);
                    }
                }
                assert forall|key: Seq<char>| #[trigger] keyed_map(s1).contains_key(key) implies keyed_map(
                    s1,
                )[key] == keyed_map(s0).insert(k@, v)[key] by {
                    let j = choose|j: int| 0 <= j < s1.len() && (#[trigger] s1[j]).0@ == key;
                    lemma_index_at(s1, j);
                    assert(s0[j].0@ == key);
                    lemma_index_at(s0, j);
                    lemma_index_at(s0, i as int);
                    if j != i {
                        assert(s1[j] == s0[j]);
                    }
                }
                assert(keyed_map(s1) =~= keyed_map(s0).insert(k@, v));
            }
        },
        None => {
            s.push((k, v));
            proof {
                let s1 = s@;
                assert forall|a: int, b: int| 0 <= a < b < s1.len() implies (#[trigger] s1[a]).0@ != (
                #[trigger] s1[b]).0@ by {
                    if b == s0.len() {
                        assert(s1[a] == s0[a]);
                    } else {
                        assert(s1[a] == s0[a] && s1[b] == s0[b]);
                    }
                }
                assert forall|key: Seq<char>| #[trigger] keyed_map(s1).contains_key(key) <==> keyed_map(
                    s0,
                ).insert(k@, v).contains_key(key) by {
                    if keyed_map(s1).contains_key(key) {
                        let j = choose|j: int| 0 <= j < s1.len() && (#[trigger] s1[j]).0@ == key;
                        if j < s0.len() {
                            assert(s1[j] == s0[j]);
                        }
                    }
                    if keyed_map(s0).insert(k@, v).contains_key(key) {
                        if key == k@ {
                            assert(s1[s0.len() as int].0@ == key);
                        } else {
                            let j = choose|j: int| 0 <= j < s0.len() && (#[trigger] s0[j]).0@ == key;
                            assert(s1[j] == s0[j]);
                        }
                    }
                }
                assert forall|key: Seq<char>| #[trigger] keyed_map(s1).contains_key(key) implies keyed_map(
                    s1,
                )[key] == keyed_map(s0).insert(k@, v)[key] by {
                    let j = choose|j: int| 0 <= j < s1.len() && (#[trigger] s1[j]).0@ == key;
                    lemma_index_at(s1, j);
                    if j < s0.len() {
                        assert(s1[j] == s0[j]);
                        lemma_index_at(s0, j);
                    }
                }
                assert(keyed_map(s1) =~= keyed_map(s0).insert(k@, v));
            }
        },
    }
}

} // verus!
