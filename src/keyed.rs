//! Entries keyed by a string, looked up by their first occurrence.
//!
//! Balances (keyed by asset symbol), accounts (keyed by user id) and bot
//! supervision records (keyed by user id) are all held as `Vec<(String, V)>`.

use vstd::prelude::*;

verus! {

/// Index of the first entry whose key is `k`, or -1.
pub open spec fn key_index<V>(s: Seq<(String, V)>, k: Seq<char>) -> int
    decreases s.len(),
{
    if s.len() == 0 {
        -1
    } else if s[0].0@ == k {
        0
    } else {
        let r = key_index(s.drop_first(), k);
        if r < 0 { -1 } else { r + 1 }
    }
}

/// The value stored under `k`, if any.
pub open spec fn lookup<V>(s: Seq<(String, V)>, k: Seq<char>) -> Option<V> {
    let i = key_index(s, k);
    if i >= 0 { Some(s[i].1) } else { None }
}

/// `s` with the value under `k` replaced by `v`, or `(k, v)` appended.
pub open spec fn put<V>(s: Seq<(String, V)>, k: String, v: V) -> Seq<(String, V)> {
    let i = key_index(s, k@);
    if i >= 0 { s.update(i, (s[i].0, v)) } else { s.push((k, v)) }
}

/// `s` without the entry found under `k` (unchanged when there is none).
pub open spec fn delete<V>(s: Seq<(String, V)>, k: Seq<char>) -> Seq<(String, V)> {
    let i = key_index(s, k);
    if i >= 0 { s.remove(i) } else { s }
}

/// No key occurs twice.
pub open spec fn keys_unique<V>(s: Seq<(String, V)>) -> bool {
    forall|i: int, j: int| 0 <= i < j < s.len() ==> s[i].0@ != s[j].0@
}

/// `key_index` is the first matching position.
pub proof fn lemma_key_index<V>(s: Seq<(String, V)>, k: Seq<char>)
    ensures
        -1 <= key_index(s, k) < s.len(),
        key_index(s, k) >= 0 ==> s[key_index(s, k)].0@ == k,
        forall|j: int| 0 <= j < s.len() && (key_index(s, k) < 0 || j < key_index(s, k))
            ==> s[j].0@ != k,
    decreases s.len(),
{
    if s.len() > 0 {
        lemma_key_index(s.drop_first(), k);
        assert forall|j: int| 0 <= j < s.len() && (key_index(s, k) < 0 || j < key_index(s, k))
            implies s[j].0@ != k by {
            if j > 0 {
                assert(s.drop_first()[j - 1] == s[j]);
            }
        }
    }
}

/// A position that matches `k`, with no match before it, is `key_index`.
pub proof fn lemma_key_index_at<V>(s: Seq<(String, V)>, k: Seq<char>, i: int)
    requires
        0 <= i < s.len(),
        s[i].0@ == k,
        forall|j: int| 0 <= j < i ==> s[j].0@ != k,
    ensures
        key_index(s, k) == i,
{
    lemma_key_index(s, k);
}

/// With no position matching `k`, `key_index` is -1.
pub proof fn lemma_key_index_absent<V>(s: Seq<(String, V)>, k: Seq<char>)
    requires
        forall|j: int| 0 <= j < s.len() ==> s[j].0@ != k,
    ensures
        key_index(s, k) == -1,
{
    lemma_key_index(s, k);
}

/// After `put(s, k, v)` the key `k` holds `v` and every other key keeps its value.
pub proof fn lemma_lookup_put<V>(s: Seq<(String, V)>, k: String, v: V, q: Seq<char>)
    ensures
        lookup(put(s, k, v), q) == if q == k@ { Some(v) } else { lookup(s, q) },
{
    let t = put(s, k, v);
    lemma_key_index(s, k@);
    lemma_key_index(s, q);
    lemma_key_index(t, q);
    let i = key_index(s, k@);
    if q == k@ {
        if i >= 0 {
            lemma_key_index_at(t, q, i);
        } else {
            lemma_key_index_at(t, q, s.len() as int);
        }
    } else {
        let iq = key_index(s, q);
        if iq >= 0 {
            assert forall|j: int| 0 <= j < iq implies t[j].0@ != q by {
                if j == i {
                } else {
                }
            }
            lemma_key_index_at(t, q, iq);
        } else {
            assert forall|j: int| 0 <= j < t.len() implies t[j].0@ != q by {
                if j == i {
                } else {
                }
            }
            lemma_key_index_absent(t, q);
        }
    }
}

/// `put` keeps the keys unique.
pub proof fn lemma_put_unique<V>(s: Seq<(String, V)>, k: String, v: V)
    requires
        keys_unique(s),
    ensures
        keys_unique(put(s, k, v)),
{
    lemma_key_index(s, k@);
}

/// `delete` keeps the keys unique, and removes every entry under `k`.
pub proof fn lemma_delete_unique<V>(s: Seq<(String, V)>, k: Seq<char>)
    requires
        keys_unique(s),
    ensures
        keys_unique(delete(s, k)),
        lookup(delete(s, k), k) is None,
{
    lemma_key_index(s, k);
    let t = delete(s, k);
    let i = key_index(s, k);
    assert forall|j: int| 0 <= j < t.len() implies t[j].0@ != k by {
        if i >= 0 {
            if j < i {
            } else {
                assert(t[j] == s[j + 1]);
            }
        }
    }
    lemma_key_index_absent(t, k);
}

/// Looking up in one more entry of `s`: an earlier entry under `k` wins.
pub proof fn lemma_lookup_take_next<V>(s: Seq<(String, V)>, i: int, k: Seq<char>)
    requires
        0 <= i < s.len(),
    ensures
        lookup(s.take(i + 1), k) == if lookup(s.take(i), k) is Some {
            lookup(s.take(i), k)
        } else if s[i].0@ == k {
            Some(s[i].1)
        } else {
            None::<V>
        },
{
    let p = s.take(i);
    let t = s.take(i + 1);
    lemma_key_index(p, k);
    let ki = key_index(p, k);
    assert forall|j: int| 0 <= j < i implies t[j] == p[j] by {}
    if ki >= 0 {
        lemma_key_index_at(t, k, ki);
    } else if s[i].0@ == k {
        lemma_key_index_at(t, k, i);
    } else {
        lemma_key_index_absent(t, k);
    }
}

/// Finds the first entry stored under `k`.
pub fn find_key<V>(v: &Vec<(String, V)>, k: &String) -> (r: Option<usize>)
    ensures
        r is Some <==> key_index(v@, k@) >= 0,
        r is Some ==> r.unwrap() as int == key_index(v@, k@),
        r is Some ==> r.unwrap() < v@.len() && v@[r.unwrap() as int].0@ == k@,
{
    let mut i: usize = 0;
    while i < v.len()
        invariant
            i <= v@.len(),
            forall|j: int| 0 <= j < i ==> v@[j].0@ != k@,
        decreases v@.len() - i,
    {
        if v[i].0 == *k {
            proof {
                lemma_key_index_at(v@, k@, i as int);
            }
            return Some(i);
        }
        i = i + 1;
    }
    proof {
        lemma_key_index_absent(v@, k@);
    }
    None
}

} // verus!
