//! Lists of `(name, value)` pairs with one entry per name, in insertion
//! order: the registries of this crate that are keyed by a name.
use vstd::prelude::*;
use crate::text::str_eq;

verus! {

/// Position of the entry named `key`, or -1 when there is none.
pub open spec fn key_index<V>(s: Seq<(String, V)>, key: Seq<char>) -> int {
    if exists|i: int| 0 <= i < s.len() && #[trigger] s[i].0@ == key {
        choose|i: int| 0 <= i < s.len() && #[trigger] s[i].0@ == key
    } else {
        -1
    }
}

/// No two entries share a name.
pub open spec fn names_unique<V>(s: Seq<(String, V)>) -> bool {
    forall|i: int, j: int|
        0 <= i < s.len() && 0 <= j < s.len() && i != j ==> #[trigger] s[i].0@ != #[trigger] s[j].0@
}

/// `s` with the entry named `e.0` replaced by `e`, or with `e` appended.
pub open spec fn upserted<V>(s: Seq<(String, V)>, e: (String, V)) -> Seq<(String, V)> {
    let k = key_index(s, e.0@);
    if k >= 0 {
        s.update(k, e)
    } else {
        s.push(e)
    }
}

pub proof fn lemma_key_index<V>(s: Seq<(String, V)>, key: Seq<char>)
    ensures
        -1 <= key_index(s, key) < s.len(),
        key_index(s, key) >= 0 ==> s[key_index(s, key)].0@ == key,
        key_index(s, key) < 0 ==> forall|i: int| 0 <= i < s.len() ==> #[trigger] s[i].0@ != key,
        names_unique(s) ==> forall|i: int|
            0 <= i < s.len() && #[trigger] s[i].0@ == key ==> key_index(s, key) == i,
{
}

pub proof fn lemma_upserted<V>(s: Seq<(String, V)>, e: (String, V))
    requires
        names_unique(s),
    ensures
        names_unique(upserted(s, e)),
        key_index(upserted(s, e), e.0@) >= 0,
        upserted(s, e)[key_index(upserted(s, e), e.0@)] == e,
{
    lemma_key_index(s, e.0@);
    let s1 = upserted(s, e);
    let k = key_index(s, e.0@);
    assert forall|a: int, b: int|
        0 <= a < s1.len() && 0 <= b < s1.len() && a != b implies #[trigger] s1[a].0@
        != #[trigger] s1[b].0@ by {
        if k >= 0 {
            assert(s1[a].0@ == s[a].0@);
            assert(s1[b].0@ == s[b].0@);
        } else {
            if a < s.len() {
                assert(s1[a] == s[a]);
            }
            if b < s.len() {
                assert(s1[b] == s[b]);
            }
        }
    }
    lemma_key_index(s1, e.0@);
    if k >= 0 {
        assert(s1[k].0@ == e.0@);
    } else {
        assert(s1[s.len() as int].0@ == e.0@);
    }
}

/// Position of the entry named `key`.
pub fn find_key<V>(v: &Vec<(String, V)>, key: &str) -> (r: Option<usize>)
    requires
        names_unique(v@),
    ensures
        match r {
            Some(i) => i as int == key_index(v@, key@),
            None => key_index(v@, key@) < 0,
        },
{
    proof {
        lemma_key_index(v@, key@);
    }
    let mut i: usize = 0;
    while i < v.len()
        invariant
            names_unique(v@),
            i <= v@.len(),
            forall|j: int| 0 <= j < i ==> #[trigger] v@[j].0@ != key@,
        decreases v@.len() - i,
    {
        if str_eq(key, &v[i].0) {
            proof {
                lemma_key_index(v@, key@);
            }
            return Some(i);
        }
        i = i + 1;
    }
    None
}

/// Stores `e`, replacing the entry with the same name.
pub fn upsert<V>(v: &mut Vec<(String, V)>, e: (String, V))
    requires
        names_unique(old(v)@),
    ensures
        final(v)@ == upserted(old(v)@, e),
        names_unique(final(v)@),
{
    proof {
        lemma_upserted(v@, e);
    }
    match find_key(v, e.0.as_str()) {
        Some(k) => {
            v.set(k, e);
        },
        None => {
            v.push(e);
        },
    }
}

} // verus!
