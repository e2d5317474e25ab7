//! Name-keyed tables: a `Vec` of `(name, value)` entries read as a map from
//! names to values. Lookup takes the first entry with the name; insertion
//! replaces that entry or appends a new one; removal drops every entry with
//! the name.
use vstd::prelude::*;
use crate::text::str_eq;

verus! {

/// The value stored under `key`: the first entry with that name.
pub open spec fn lookup<T>(m: Seq<(String, T)>, key: Seq<char>) -> Option<T>
    decreases m.len(),
{
    if m.len() == 0 {
        None
    } else if m[0].0@ == key {
        Some(m[0].1)
    } else {
        lookup(m.drop_first(), key)
    }
}

/// The index of the first entry named `key`.
pub open spec fn index_of<T>(m: Seq<(String, T)>, key: Seq<char>) -> Option<int>
    decreases m.len(),
{
    if m.len() == 0 {
        None
    } else if m[0].0@ == key {
        Some(0)
    } else {
        match index_of(m.drop_first(), key) {
            Some(i) => Some(i + 1),
            None => None,
        }
    }
}

/// The entries whose name is not `key`, in order.
pub open spec fn without<T>(m: Seq<(String, T)>, key: Seq<char>) -> Seq<(String, T)> {
    m.filter(name_differs(key))
}

/// The test that keeps entries not named `key`.
pub open spec fn name_differs<T>(key: Seq<char>) -> spec_fn((String, T)) -> bool {
    |e: (String, T)| e.0@ != key
}

/// No two entries share a name.
pub open spec fn names_distinct<T>(m: Seq<(String, T)>) -> bool {
    forall|i: int, j: int| 0 <= i < j < m.len() ==> m[i].0@ != m[j].0@
}

/// The names of the entries, in order.
pub open spec fn names<T>(m: Seq<(String, T)>) -> Seq<Seq<char>> {
    m.map_values(|e: (String, T)| e.0@)
}

/// `index_of` finds the first entry with the name, and `lookup` reads it.
pub proof fn lemma_index_of<T>(m: Seq<(String, T)>, key: Seq<char>)
    ensures
        index_of(m, key) matches Some(i) ==> 0 <= i < m.len() && m[i].0@ == key && lookup(m, key)
            == Some(m[i].1) && forall|j: int| 0 <= j < i ==> m[j].0@ != key,
        index_of(m, key) is None ==> lookup(m, key) is None && forall|j: int|
            0 <= j < m.len() ==> m[j].0@ != key,
    decreases m.len(),
{
    if m.len() > 0 && m[0].0@ != key {
        lemma_index_of(m.drop_first(), key);
        assert forall|j: int| 1 <= j < m.len() implies m[j] == m.drop_first()[j - 1] by {}
    }
}

/// Replacing the first entry named `e.0` by `e` stores `e.1` under that name
/// and leaves every other name as it was.
pub proof fn lemma_lookup_update<T>(m: Seq<(String, T)>, i: int, e: (String, T), k: Seq<char>)
    requires
        0 <= i < m.len(),
        m[i].0@ == e.0@,
        forall|j: int| 0 <= j < i ==> m[j].0@ != e.0@,
    ensures
        lookup(m.update(i, e), k) == if k == e.0@ {
            Some(e.1)
        } else {
            lookup(m, k)
        },
    decreases i,
{
    if i > 0 {
        lemma_lookup_update(m.drop_first(), i - 1, e, k);
        assert(m.update(i, e).drop_first() =~= m.drop_first().update(i - 1, e));
        assert(m.update(i, e)[0] == m[0]);
    } else {
        assert(m.update(i, e).drop_first() =~= m.drop_first());
        assert(m.update(i, e)[0] == e);
    }
}

/// Appending an entry whose name is absent stores it under that name.
pub proof fn lemma_lookup_push<T>(m: Seq<(String, T)>, e: (String, T), k: Seq<char>)
    requires
        lookup(m, e.0@) is None,
    ensures
        lookup(m.push(e), k) == if k == e.0@ {
            Some(e.1)
        } else {
            lookup(m, k)
        },
    decreases m.len(),
{
    if m.len() == 0 {
        assert(m.push(e).drop_first() =~= m);
    } else {
        lemma_lookup_push(m.drop_first(), e, k);
        assert(m.push(e).drop_first() =~= m.drop_first().push(e));
    }
}

/// Dropping the entries named `key` removes that name and keeps the others.
pub proof fn lemma_lookup_without<T>(m: Seq<(String, T)>, key: Seq<char>, k: Seq<char>)
    ensures
        lookup(without(m, key), k) == if k == key {
            None
        } else {
            lookup(m, k)
        },
    decreases m.len(),
{
    let f = name_differs::<T>(key);
    if m.len() > 0 {
        lemma_lookup_without(m.drop_first(), key, k);
        assert(m =~= seq![m[0]] + m.drop_first());
        m.drop_first().lemma_filter_prepend(m[0], f);
        if m[0].0@ == key {
            assert(without(m, key) =~= without(m.drop_first(), key));
        } else {
            assert(without(m, key) =~= seq![m[0]] + without(m.drop_first(), key));
            assert((seq![m[0]] + without(m.drop_first(), key)).drop_first() =~= without(m.drop_first(), key));
        }
    } else {
        assert(without(m, key) =~= m);
    }
}

/// Removing one entry named `key` does not change what remains once all
/// entries named `key` are dropped.
pub proof fn lemma_without_remove<T>(m: Seq<(String, T)>, key: Seq<char>, i: int)
    requires
        0 <= i < m.len(),
        m[i].0@ == key,
    ensures
        without(m.remove(i), key) == without(m, key),
{
    let f = name_differs::<T>(key);
    let a = m.subrange(0, i);
    let b = m.subrange(i + 1, m.len() as int);
    assert(m =~= a + (seq![m[i]] + b));
    assert(m.remove(i) =~= a + b);
    Seq::filter_distributes_over_add(a, seq![m[i]] + b, f);
    Seq::filter_distributes_over_add(a, b, f);
    b.lemma_filter_prepend(m[i], f);
    assert(seq![m[i]] + b == seq![m[i]] + b);
}

/// With no entry named `key`, dropping that name changes nothing.
pub proof fn lemma_without_absent<T>(m: Seq<(String, T)>, key: Seq<char>)
    requires
        forall|j: int| 0 <= j < m.len() ==> m[j].0@ != key,
    ensures
        without(m, key) == m,
    decreases m.len(),
{
    let f = name_differs::<T>(key);
    if m.len() > 0 {
        lemma_without_absent(m.drop_first(), key);
        assert(m =~= seq![m[0]] + m.drop_first());
        m.drop_first().lemma_filter_prepend(m[0], f);
        assert(without(m, key) =~= m);
    } else {
        assert(without(m, key) =~= m);
    }
}

/// Looks up the first entry named `key`.
pub fn find_key<T>(m: &Vec<(String, T)>, key: &str) -> (r: Option<usize>)
    ensures
        match r {
            Some(i) => index_of(m@, key@) == Some(i as int),
            None => index_of(m@, key@) is None,
        },
{
    let mut i: usize = 0;
    assert(m@.subrange(0, m@.len() as int) =~= m@);
    while i < m.len()
        invariant
            i <= m@.len(),
            index_of(m@, key@) == match index_of(m@.subrange(i as int, m@.len() as int), key@) {
                Some(j) => Some(j + i),
                None => None,
            },
        decreases m.len() - i,
    {
        let ghost rest = m@.subrange(i as int, m@.len() as int);
        assert(rest[0] == m@[i as int]);
        if str_eq(m[i].0.as_str(), key) {
            return Some(i);
        }
        assert(rest.drop_first() =~= m@.subrange(i + 1, m@.len() as int));
        i = i + 1;
    }
    None
}

/// A reference to the value stored under `key`.
pub fn get_value<'a, T>(m: &'a Vec<(String, T)>, key: &str) -> (r: Option<&'a T>)
    ensures
        match r {
            Some(v) => lookup(m@, key@) == Some(*v),
            None => lookup(m@, key@) is None,
        },
{
    proof {
        lemma_index_of(m@, key@);
    }
    match find_key(m, key) {
        Some(i) => Some(&m[i].1),
        None => None,
    }
}

/// Stores `v` under `key`, replacing the value stored there.
pub fn insert_value<T>(m: &mut Vec<(String, T)>, key: String, v: T)
    ensures
        forall|k: Seq<char>| #[trigger]
            lookup(final(m)@, k) == if k == key@ {
                Some(v)
            } else {
                lookup(old(m)@, k)
            },
        names_distinct(old(m)@) ==> names_distinct(final(m)@),
{
    proof {
        lemma_index_of(m@, key@);
    }
    match find_key(m, key.as_str()) {
        Some(i) => {
            let ghost old_m = m@;
            let ghost e = (key, v);
            m.set(i, (key, v));
            proof {
                assert(m@ == old_m.update(i as int, e));
                assert forall|k: Seq<char>| #[trigger]
                    lookup(m@, k) == if k == e.0@ {
                        Some(e.1)
                    } else {
                        lookup(old_m, k)
                    } by {
                    lemma_lookup_update(old_m, i as int, e, k);
                }
            }
        },
        None => {
            let ghost old_m = m@;
            let ghost e = (key, v);
            m.push((key, v));
            proof {
                assert forall|k: Seq<char>| #[trigger]
                    lookup(m@, k) == if k == e.0@ {
                        Some(e.1)
                    } else {
                        lookup(old_m, k)
                    } by {
                    lemma_lookup_push(old_m, e, k);
                }
            }
        },
    }
}

/// Drops every entry named `key`; returns the value that was stored there.
pub fn remove_key<T>(m: &mut Vec<(String, T)>, key: &str) -> (r: Option<T>)
    ensures
        r == lookup(old(m)@, key@),
        final(m)@ == without(old(m)@, key@),
        forall|k: Seq<char>| #[trigger]
            lookup(final(m)@, k) == if k == key@ {
                None
            } else {
                lookup(old(m)@, k)
            },
{
    let ghost old_m = m@;
    let mut removed: Option<T> = None;
    loop
        invariant
            old_m == old(m)@,
            without(m@, key@) == without(old_m, key@),
            removed is None ==> m@ == old_m,
            removed is Some ==> removed == lookup(old_m, key@),
        decreases m@.len(),
    {
        proof {
            lemma_index_of(m@, key@);
        }
        match find_key(m, key) {
            None => {
                proof {
                    lemma_without_absent(m@, key@);
                    assert forall|k: Seq<char>| #[trigger]
                        lookup(m@, k) == if k == key@ {
                            None
                        } else {
                            lookup(old_m, k)
                        } by {
                        lemma_lookup_without(old_m, key@, k);
                    }
                }
                return removed;
            },
            Some(i) => {
                let ghost before = m@;
                proof {
                    lemma_without_remove(before, key@, i as int);
                }
                let e = m.remove(i);
                if removed.is_none() {
                    removed = Some(e.1);
                }
            },
        }
    }
}

} // verus!
