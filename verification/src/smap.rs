//! Maps keyed by strings, kept as vectors of entries in strictly increasing
//! key order: the ordered maps of the project model.
use vstd::prelude::*;
use crate::text::{lex_lt, str_lt, str_eq, lemma_lex_irreflexive, lemma_lex_transitive, lemma_lex_total};

verus! {

/// The entries of a map, each key and value taken by its view.
pub open spec fn entries_view<V: View>(s: Seq<(String, V)>) -> Seq<(Seq<char>, V::V)> {
    s.map_values(|e: (String, V)| (e.0@, e.1@))
}

/// Keys strictly increase along the sequence.
pub open spec fn keys_sorted<X>(s: Seq<(Seq<char>, X)>) -> bool {
    forall|i: int, j: int| 0 <= i < j < s.len() ==> lex_lt(#[trigger] s[i].0, #[trigger] s[j].0)
}

/// Whether some entry has the key.
pub open spec fn has_key<X>(s: Seq<(Seq<char>, X)>, k: Seq<char>) -> bool {
    exists|i: int| 0 <= i < s.len() && #[trigger] s[i].0 == k
}

/// A position holding the key, when there is one.
pub open spec fn key_index<X>(s: Seq<(Seq<char>, X)>, k: Seq<char>) -> int {
    choose|i: int| 0 <= i < s.len() && #[trigger] s[i].0 == k
}

/// The value stored under a key.
pub open spec fn lookup<X>(s: Seq<(Seq<char>, X)>, k: Seq<char>) -> Option<X> {
    if has_key(s, k) {
        Some(s[key_index(s, k)].1)
    } else {
        None
    }
}

/// In a sorted sequence, the entry holding a key is the one `lookup` finds.
pub proof fn lemma_lookup_at<X>(s: Seq<(Seq<char>, X)>, i: int)
    requires
        keys_sorted(s),
        0 <= i < s.len(),
    ensures
        lookup(s, s[i].0) == Some(s[i].1),
{
    let k = s[i].0;
    assert(has_key(s, k));
    let j = key_index(s, k);
    if j < i {
        assert(lex_lt(s[j].0, s[i].0));
        lemma_lex_irreflexive(k);
    } else if j > i {
        assert(lex_lt(s[i].0, s[j].0));
        lemma_lex_irreflexive(k);
    }
    assert(j == i);
}

/// The entries after storing `v` under `k` in a sorted map: an entry with
/// the key is replaced in place, otherwise a new entry goes before the
/// first greater key.
pub open spec fn sins<X>(s: Seq<(Seq<char>, X)>, k: Seq<char>, v: X) -> Seq<(Seq<char>, X)>
    decreases s.len(),
{
    if s.len() == 0 {
        seq![(k, v)]
    } else if s[0].0 == k {
        s.update(0, (k, v))
    } else if lex_lt(k, s[0].0) {
        seq![(k, v)] + s
    } else {
        seq![s[0]] + sins(s.drop_first(), k, v)
    }
}

proof fn lemma_sins_at<X>(s: Seq<(Seq<char>, X)>, k: Seq<char>, v: X, i: int)
    requires
        keys_sorted(s),
        0 <= i <= s.len(),
        forall|j: int| 0 <= j < i ==> lex_lt(#[trigger] s[j].0, k),
        i < s.len() ==> !lex_lt(s[i].0, k),
    ensures
        i < s.len() && s[i].0 == k ==> sins(s, k, v) == s.update(i, (k, v)),
        !(i < s.len() && s[i].0 == k) ==> sins(s, k, v) == s.insert(i, (k, v)),
    decreases i,
{
    if i == 0 {
        if s.len() > 0 && s[0].0 != k {
            lemma_lex_total(s[0].0, k);
            assert(seq![(k, v)] + s =~= s.insert(0, (k, v)));
        }
        if s.len() == 0 {
            assert(seq![(k, v)] =~= s.insert(0, (k, v)));
        }
    } else {
        assert(lex_lt(s[0].0, k));
        lemma_lex_total(s[0].0, k);
        let d = s.drop_first();
        assert forall|j: int| 0 <= j < i - 1 implies lex_lt(#[trigger] d[j].0, k) by {
            assert(d[j] == s[j + 1]);
        }
        lemma_sins_at(d, k, v, i - 1);
        if i < s.len() && s[i].0 == k {
            assert(seq![s[0]] + d.update(i - 1, (k, v)) =~= s.update(i, (k, v)));
        } else {
            assert(seq![s[0]] + d.insert(i - 1, (k, v)) =~= s.insert(i, (k, v)));
        }
    }
}

/// Storing a value under a key keeps the keys sorted, finds the value
/// under that key, and leaves every other key as it was.
pub proof fn lemma_sins_lookup<X>(s: Seq<(Seq<char>, X)>, k: Seq<char>, v: X)
    requires
        keys_sorted(s),
    ensures
        keys_sorted(sins(s, k, v)),
        forall|key: Seq<char>| #[trigger] lookup(sins(s, k, v), key) == if key == k { Some(v) } else { lookup(s, key) },
{
    lemma_sins_lookup_from(s, k, v, 0);
}

proof fn lemma_sins_lookup_from<X>(s: Seq<(Seq<char>, X)>, k: Seq<char>, v: X, i: int)
    requires
        keys_sorted(s),
        0 <= i <= s.len(),
        forall|j: int| 0 <= j < i ==> lex_lt(#[trigger] s[j].0, k),
    ensures
        keys_sorted(sins(s, k, v)),
        forall|key: Seq<char>| #[trigger] lookup(sins(s, k, v), key) == if key == k { Some(v) } else { lookup(s, key) },
    decreases s.len() - i,
{
    if i < s.len() && lex_lt(s[i].0, k) {
        lemma_sins_lookup_from(s, k, v, i + 1);
    } else {
        lemma_sins_at(s, k, v, i);
        let s0 = s;
        let s1 = sins(s, k, v);
        if i < s.len() && s[i].0 == k {
            assert(s1 =~= s0.update(i, (k, v)));
            assert forall|j: int| 0 <= j < s1.len() implies #[trigger] s1[j].0 == s0[j].0 by {}
            assert(keys_sorted(s1));
            assert forall|key: Seq<char>| #[trigger] lookup(s1, key) == if key == k { Some(v) } else { lookup(s0, key) } by {
                lemma_lookup_at(s1, i);
                if key != k {
                    if has_key(s1, key) {
                        let j = choose|j: int| 0 <= j < s1.len() && #[trigger] s1[j].0 == key;
                        lemma_lookup_at(s1, j);
                        lemma_lookup_at(s0, j);
                    } else if has_key(s0, key) {
                        let j = choose|j: int| 0 <= j < s0.len() && #[trigger] s0[j].0 == key;
                        assert(s1[j].0 == key);
                    }
                }
            }
        } else {
            if i < s.len() {
                lemma_lex_total(s0[i].0, k);
            }
            assert(s1 =~= s0.insert(i, (k, v)));
            assert forall|a: int, b: int| 0 <= a < b < s1.len() implies lex_lt(
                #[trigger] s1[a].0,
                #[trigger] s1[b].0,
            ) by {
                if a < i && b == i {
                } else if a < i && b > i {
                    assert(s1[b] == s0[b - 1]);
                    if b - 1 > a {
                    }
                } else if a == i && b > i {
                    assert(s1[b] == s0[b - 1]);
                    if b - 1 > i {
                        assert(lex_lt(s0[i].0, s0[b - 1].0));
                        lemma_lex_transitive(k, s0[i].0, s0[b - 1].0);
                    }
                } else if a > i {
                    assert(s1[a] == s0[a - 1]);
                    assert(s1[b] == s0[b - 1]);
                }
            }
            assert forall|key: Seq<char>| #[trigger] lookup(s1, key) == if key == k { Some(v) } else { lookup(s0, key) } by {
                lemma_lookup_at(s1, i);
                if key != k {
                    if has_key(s1, key) {
                        let j = choose|j: int| 0 <= j < s1.len() && #[trigger] s1[j].0 == key;
                        lemma_lookup_at(s1, j);
                        if j < i {
                            lemma_lookup_at(s0, j);
                        } else {
                            assert(j > i);
                            lemma_lookup_at(s0, j - 1);
                        }
                    } else if has_key(s0, key) {
                        let j = choose|j: int| 0 <= j < s0.len() && #[trigger] s0[j].0 == key;
                        if j < i {
                            assert(s1[j].0 == key);
                        } else {
                            assert(s1[j + 1].0 == key);
                        }
                    }
                }
            }
        }
    }
}

/// The position of a key in a sorted map, if it is there.
pub fn smap_find<V: View>(m: &Vec<(String, V)>, k: &str) -> (r: Option<usize>)
    requires
        keys_sorted(entries_view(m@)),
    ensures
        match r {
            Some(i) => i < m@.len() && m@[i as int].0@ == k@
                && lookup(entries_view(m@), k@) == Some(m@[i as int].1@),
            None => lookup(entries_view(m@), k@) is None,
        },
{
    let ghost s = entries_view(m@);
    let mut i: usize = 0;
    while i < m.len()
        invariant
            s == entries_view(m@),
            keys_sorted(s),
            i <= m@.len(),
            forall|j: int| 0 <= j < i ==> s[j].0 != k@,
        decreases m.len() - i,
    {
        if str_eq(m[i].0.as_str(), k) {
            proof {
                lemma_lookup_at(s, i as int);
            }
            return Some(i);
        }
        i = i + 1;
    }
    proof {
        assert(!has_key(s, k@));
    }
    None
}

/// Whether a sorted map holds a key.
pub fn smap_contains<V: View>(m: &Vec<(String, V)>, k: &str) -> (r: bool)
    requires
        keys_sorted(entries_view(m@)),
    ensures
        r == (lookup(entries_view(m@), k@) is Some),
{
    smap_find(m, k).is_some()
}

/// Stores a value under a key, replacing what was there, keeping keys sorted.
pub fn smap_insert<V: View>(m: &mut Vec<(String, V)>, k: String, v: V)
    requires
        keys_sorted(entries_view(old(m)@)),
    ensures
        keys_sorted(entries_view(final(m)@)),
        entries_view(final(m)@) == sins(entries_view(old(m)@), k@, v@),
        forall|key: Seq<char>|
            #[trigger] lookup(entries_view(final(m)@), key) == if key == k@ {
                Some(v@)
            } else {
                lookup(entries_view(old(m)@), key)
            },
{
    let ghost s0 = entries_view(m@);
    let mut i: usize = 0;
    while i < m.len() && str_lt(m[i].0.as_str(), k.as_str())
        invariant
            s0 == entries_view(m@),
            keys_sorted(s0),
            i <= m@.len(),
            forall|j: int| 0 <= j < i ==> lex_lt(s0[j].0, k@),
        decreases m.len() - i,
    {
        i = i + 1;
    }
    let ghost kv = k@;
    let ghost vv = v@;
    proof {
        if i < m@.len() {
            assert(!lex_lt(s0[i as int].0, kv));
        }
        lemma_sins_at(s0, kv, vv, i as int);
    }
    if i < m.len() && str_eq(m[i].0.as_str(), k.as_str()) {
        m.set(i, (k, v));
        proof {
            let s1 = entries_view(m@);
            assert(s1 =~= s0.update(i as int, (kv, vv)));
            assert forall|j: int| 0 <= j < s1.len() implies #[trigger] s1[j].0 == s0[j].0 by {}
            assert(keys_sorted(s1));
            assert forall|key: Seq<char>|
                #[trigger] lookup(s1, key) == if key == kv { Some(vv) } else { lookup(s0, key) } by {
                lemma_lookup_at(s1, i as int);
                if key != kv {
                    if has_key(s1, key) {
                        let j = choose|j: int| 0 <= j < s1.len() && #[trigger] s1[j].0 == key;
                        lemma_lookup_at(s1, j);
                        lemma_lookup_at(s0, j);
                    } else if has_key(s0, key) {
                        let j = choose|j: int| 0 <= j < s0.len() && #[trigger] s0[j].0 == key;
                        assert(s1[j].0 == key);
                    }
                }
            }
        }
    } else {
        proof {
            if i < m@.len() {
                lemma_lex_total(s0[i as int].0, kv);
            }
        }
        m.insert(i, (k, v));
        proof {
            let s1 = entries_view(m@);
            assert(s1 =~= s0.insert(i as int, (kv, vv)));
            assert forall|a: int, b: int| 0 <= a < b < s1.len() implies lex_lt(
                #[trigger] s1[a].0,
                #[trigger] s1[b].0,
            ) by {
                if a < i && b == i {
                } else if a < i && b > i {
                    assert(s1[b] == s0[b - 1]);
                    if b - 1 > a {
                    }
                } else if a == i && b > i {
                    assert(s1[b] == s0[b - 1]);
                    if b - 1 > i {
                        assert(lex_lt(s0[i as int].0, s0[b - 1].0));
                        lemma_lex_transitive(kv, s0[i as int].0, s0[b - 1].0);
                    }
                } else if a > i {
                    assert(s1[a] == s0[a - 1]);
                    assert(s1[b] == s0[b - 1]);
                }
            }
            assert forall|key: Seq<char>|
                #[trigger] lookup(s1, key) == if key == kv { Some(vv) } else { lookup(s0, key) } by {
                lemma_lookup_at(s1, i as int);
                if key != kv {
                    if has_key(s1, key) {
                        let j = choose|j: int| 0 <= j < s1.len() && #[trigger] s1[j].0 == key;
                        lemma_lookup_at(s1, j);
                        if j < i {
                            lemma_lookup_at(s0, j);
                        } else {
                            assert(j > i);
                            lemma_lookup_at(s0, j - 1);
                        }
                    } else if has_key(s0, key) {
                        let j = choose|j: int| 0 <= j < s0.len() && #[trigger] s0[j].0 == key;
                        if j < i {
                            assert(s1[j].0 == key);
                        } else {
                            assert(s1[j + 1].0 == key);
                        }
                    }
                }
            }
        }
    }
}

} // verus!
