//! Small associative lists: a `Vec` of `(String, V)` pairs whose keys are
//! distinct stands for a map keyed by name, in insertion order.
use vstd::prelude::*;
use vstd::string::StrSliceExecFns;

verus! {

/// No key occurs twice.
pub open spec fn keys_unique<V>(m: Seq<(String, V)>) -> bool {
    forall|i: int, j: int| 0 <= i < j < m.len() ==> m[i].0@ != m[j].0@
}

/// Some entry has the key `k`.
pub open spec fn has_key<V>(m: Seq<(String, V)>, k: Seq<char>) -> bool {
    exists|i: int| 0 <= i < m.len() && m[i].0@ == k
}

/// The entries with each value replaced by its view.
pub open spec fn entries_view<V: View>(m: Seq<(String, V)>) -> Seq<(String, V::V)> {
    m.map_values(|e: (String, V)| (e.0, e.1@))
}

/// Where the key `k` stands; meaningful when it is there.
pub open spec fn key_index<V>(m: Seq<(String, V)>, k: Seq<char>) -> int {
    choose|i: int| 0 <= i < m.len() && m[i].0@ == k
}

/// `m` with `e` put in: it takes the place of the entry with its key, or comes last.
pub open spec fn upsert_spec<V>(m: Seq<(String, V)>, e: (String, V)) -> Seq<(String, V)> {
    if has_key(m, e.0@) {
        m.update(key_index(m, e.0@), e)
    } else {
        m.push(e)
    }
}

/// `m` without the entry with key `k`.
pub open spec fn remove_spec<V>(m: Seq<(String, V)>, k: Seq<char>) -> Seq<(String, V)> {
    if has_key(m, k) {
        m.remove(key_index(m, k))
    } else {
        m
    }
}

/// With distinct keys, the entry found is the one that `key_index` names.
pub proof fn lemma_key_index_unique<V>(m: Seq<(String, V)>, i: int)
    requires
        keys_unique(m),
        0 <= i < m.len(),
    ensures
        has_key(m, m[i].0@),
        key_index(m, m[i].0@) == i,
{
    assert(m[i].0@ == m[i].0@);
    let j = key_index(m, m[i].0@);
    assert(0 <= j < m.len() && m[j].0@ == m[i].0@);
}

pub proof fn lemma_keys_view<V: View>(m: Seq<(String, V)>)
    ensures
        entries_view(m).len() == m.len(),
        forall|i: int| 0 <= i < m.len() ==> (#[trigger] entries_view(m)[i]).0 == m[i].0,
        forall|k: Seq<char>| has_key(entries_view(m), k) == has_key(m, k),
        keys_unique(entries_view(m)) == keys_unique(m),
{
    assert forall|k: Seq<char>| has_key(entries_view(m), k) == has_key(m, k) by {
        if has_key(m, k) {
            let i = choose|i: int| 0 <= i < m.len() && m[i].0@ == k;
            assert(entries_view(m)[i].0@ == k);
        }
        if has_key(entries_view(m), k) {
            let i = choose|i: int| 0 <= i < entries_view(m).len() && entries_view(m)[i].0@ == k;
            assert(m[i].0@ == k);
        }
    }
    assert(forall|i: int| 0 <= i < m.len() ==> (#[trigger] entries_view(m)[i]).0 == m[i].0);
    if keys_unique(m) {
        assert forall|i: int, j: int| 0 <= i < j < m.len() implies entries_view(m)[i].0@
            != entries_view(m)[j].0@ by {
            assert(m[i].0@ != m[j].0@);
        }
    }
    if keys_unique(entries_view(m)) {
        assert forall|i: int, j: int| 0 <= i < j < m.len() implies m[i].0@ != m[j].0@ by {
            assert(entries_view(m)[i].0@ != entries_view(m)[j].0@);
        }
    }
}

/// Puts `(k, v)` into `m`, over the entry with key `k` if there is one.
pub fn upsert<V: View>(m: &mut Vec<(String, V)>, k: String, v: V)
    requires
        keys_unique(old(m)@),
    ensures
        keys_unique(final(m)@),
        entries_view(final(m)@) == upsert_spec(entries_view(old(m)@), (k, v@)),
{
    let ghost old_view = entries_view(m@);
    proof {
        lemma_keys_view(m@);
    }
    match find_key(m, k.as_str()) {
        Some(i) => {
            proof {
                lemma_key_index_unique(old_view, i as int);
            }
            m.set(i, (k, v));
            proof {
                lemma_keys_view(m@);
                assert(entries_view(m@) =~= old_view.update(i as int, (k, v@)));
            }
        },
        None => {
            m.push((k, v));
            proof {
                lemma_keys_view(m@);
                assert(entries_view(m@) =~= old_view.push((k, v@)));
            }
        },
    }
}

/// Takes the entry with key `k` out of `m`, if there is one.
pub fn remove_key<V: View>(m: &mut Vec<(String, V)>, k: &str)
    requires
        keys_unique(old(m)@),
    ensures
        keys_unique(final(m)@),
        entries_view(final(m)@) == remove_spec(entries_view(old(m)@), k@),
{
    let ghost old_view = entries_view(m@);
    let ghost old_m = m@;
    proof {
        lemma_keys_view(m@);
    }
    match find_key(m, k) {
        Some(i) => {
            proof {
                lemma_key_index_unique(old_view, i as int);
            }
            m.remove(i);
            proof {
                lemma_keys_view(m@);
                assert(entries_view(m@) =~= old_view.remove(i as int));
                assert forall|a: int, b: int| 0 <= a < b < m@.len() implies m@[a].0@ != m@[b].0@ by {
                    let a2 = if a < i { a } else { a + 1 };
                    let b2 = if b < i { b } else { b + 1 };
                    assert(m@[a] == old_m[a2] && m@[b] == old_m[b2]);
                }
            }
        },
        None => {},
    }
}

/// Whether no key occurs twice.
pub fn keys_distinct<V>(m: &Vec<(String, V)>) -> (r: bool)
    ensures
        r == keys_unique(m@),
{
    let mut i: usize = 0;
    while i < m.len()
        invariant
            i <= m@.len(),
            forall|a: int, b: int| 0 <= a < b < m@.len() && a < i ==> m@[a].0@ != m@[b].0@,
        decreases m@.len() - i,
    {
        let mut j: usize = i + 1;
        while j < m.len()
            invariant
                i < m@.len(),
                i + 1 <= j <= m@.len(),
                forall|a: int, b: int| 0 <= a < b < m@.len() && a < i ==> m@[a].0@ != m@[b].0@,
                forall|b: int| i < b < j ==> m@[i as int].0@ != m@[b].0@,
            decreases m@.len() - j,
        {
            if str_eq(m[i].0.as_str(), m[j].0.as_str()) {
                return false;
            }
            j = j + 1;
        }
        i = i + 1;
    }
    true
}

/// Position of the entry with key `k`, if any.
pub fn find_key<V>(m: &Vec<(String, V)>, k: &str) -> (r: Option<usize>)
    ensures
        match r {
            Some(i) => i < m@.len() && m@[i as int].0@ == k@,
            None => !has_key(m@, k@),
        },
{
    let mut i: usize = 0;
    while i < m.len()
        invariant
            i <= m@.len(),
            forall|j: int| 0 <= j < i ==> m@[j].0@ != k@,
        decreases m@.len() - i,
    {
        if str_eq(m[i].0.as_str(), k) {
            return Some(i);
        }
        i = i + 1;
    }
    None
}

/// Character-wise equality of two strings.
pub fn str_eq(a: &str, b: &str) -> (r: bool)
    ensures
        r == (a@ == b@),
{
    let n = a.unicode_len();
    if n != b.unicode_len() {
        return false;
    }
    let mut i: usize = 0;
    while i < n
        invariant
            n == a@.len(),
            n == b@.len(),
            i <= n,
            forall|j: int| 0 <= j < i ==> a@[j] == b@[j],
        decreases n - i,
    {
        if a.get_char(i) != b.get_char(i) {
            return false;
        }
        i = i + 1;
    }
    assert(a@ =~= b@);
    true
}

/// Copy of a list of string pairs.
pub fn clone_string_pairs(m: &Vec<(String, String)>) -> (r: Vec<(String, String)>)
    ensures
        r@ == m@,
{
    let mut r: Vec<(String, String)> = Vec::new();
    let mut i: usize = 0;
    while i < m.len()
        invariant
            i <= m@.len(),
            r@ == m@.subrange(0, i as int),
        decreases m@.len() - i,
    {
        r.push((m[i].0.clone(), m[i].1.clone()));
        proof {
            assert(m@.subrange(0, i as int + 1) =~= m@.subrange(0, i as int).push(m@[i as int]));
        }
        i = i + 1;
    }
    assert(m@.subrange(0, m@.len() as int) =~= m@);
    r
}

/// Copy of a list of strings.
pub fn clone_strings(m: &Vec<String>) -> (r: Vec<String>)
    ensures
        r@ == m@,
{
    let mut r: Vec<String> = Vec::new();
    let mut i: usize = 0;
    while i < m.len()
        invariant
            i <= m@.len(),
            r@ == m@.subrange(0, i as int),
        decreases m@.len() - i,
    {
        r.push(m[i].clone());
        proof {
            assert(m@.subrange(0, i as int + 1) =~= m@.subrange(0, i as int).push(m@[i as int]));
        }
        i = i + 1;
    }
    assert(m@.subrange(0, m@.len() as int) =~= m@);
    r
}

} // verus!
