//! Small maps keyed by text, kept as vectors of `(key, value)` pairs, and an in-place
//! `retain` on vectors; the state tables of the library are built on these.
use vstd::prelude::*;
use vstd::string::*;
use crate::text::str_eq;

verus! {

/// The value most recently stored under `k` (the last pair with that key).
pub open spec fn last_value<V>(m: Seq<(String, V)>, k: Seq<char>) -> Option<V>
    decreases m.len(),
{
    if m.len() == 0 {
        None
    } else if m.last().0@ == k {
        Some(m.last().1)
    } else {
        last_value(m.drop_last(), k)
    }
}

/// Whether some pair has key `k`.
pub open spec fn has_key<V>(m: Seq<(String, V)>, k: Seq<char>) -> bool {
    last_value(m, k) is Some
}

/// Predicate on pairs: the key differs from `k`.
pub open spec fn key_differs<V>(k: Seq<char>) -> spec_fn((String, V)) -> bool {
    |e: (String, V)| e.0@ != k
}

/// The map with every pair of key `k` taken out.
pub open spec fn without_key<V>(m: Seq<(String, V)>, k: Seq<char>) -> Seq<(String, V)> {
    m.filter(key_differs::<V>(k))
}

/// One step of `filter`: the last element is kept or dropped.
pub proof fn lemma_filter_step<T>(m: Seq<T>, pred: spec_fn(T) -> bool)
    requires
        m.len() > 0,
    ensures
        pred(m.last()) ==> m.filter(pred) == m.drop_last().filter(pred).push(m.last()),
        pred(m.last()) ==> m.filter(pred).drop_last() == m.drop_last().filter(pred),
        pred(m.last()) ==> m.filter(pred).last() == m.last(),
        !pred(m.last()) ==> m.filter(pred) == m.drop_last().filter(pred),
{
    reveal(Seq::filter);
    let f = m.drop_last().filter(pred);
    assert(f.push(m.last()).drop_last() =~= f);
}

/// Removing a key leaves no value under it.
pub proof fn lemma_without_key_absent<V>(m: Seq<(String, V)>, k: Seq<char>)
    ensures
        last_value(without_key(m, k), k) is None,
    decreases m.len(),
{
    if m.len() > 0 {
        lemma_without_key_absent(m.drop_last(), k);
        lemma_filter_step(m, key_differs::<V>(k));
    }
}

/// Removing a key leaves the values of the other keys as they were.
pub proof fn lemma_without_key_other<V>(m: Seq<(String, V)>, k: Seq<char>, o: Seq<char>)
    requires
        o != k,
    ensures
        last_value(without_key(m, k), o) == last_value(m, o),
    decreases m.len(),
{
    if m.len() > 0 {
        lemma_without_key_other(m.drop_last(), k, o);
        lemma_filter_step(m, key_differs::<V>(k));
    }
}

/// No two pairs share a key.
pub open spec fn keys_unique<V>(m: Seq<(String, V)>) -> bool
    decreases m.len(),
{
    m.len() == 0 || (keys_unique(m.drop_last()) && !has_key(m.drop_last(), m.last().0@))
}

/// Taking a key out keeps the keys unique.
pub proof fn lemma_without_key_unique<V>(m: Seq<(String, V)>, k: Seq<char>)
    requires
        keys_unique(m),
    ensures
        keys_unique(without_key(m, k)),
    decreases m.len(),
{
    if m.len() > 0 {
        lemma_without_key_unique(m.drop_last(), k);
        lemma_filter_step(m, key_differs::<V>(k));
        if m.last().0@ != k {
            lemma_without_key_other(m.drop_last(), k, m.last().0@);
            assert(without_key(m, k).drop_last() == without_key(m.drop_last(), k));
        }
    }
}

/// Storing under a key keeps the keys unique.
pub proof fn lemma_insert_key_unique<V>(m: Seq<(String, V)>, k: String, v: V)
    requires
        keys_unique(m),
    ensures
        keys_unique(without_key(m, k@).push((k, v))),
{
    lemma_without_key_unique(m, k@);
    lemma_without_key_absent(m, k@);
    assert(without_key(m, k@).push((k, v)).drop_last() =~= without_key(m, k@));
}

/// Keeps, in order, the elements of `v` on which `keep` answers `true`.
pub fn retain_vec<T, F: Fn(&T) -> bool>(v: &mut Vec<T>, keep: F, Ghost(pred): Ghost<spec_fn(T) -> bool>)
    requires
        forall|x: T| #[trigger] keep.requires((&x,)),
        forall|x: T, b: bool| keep.ensures((&x,), b) ==> b == pred(x),
    ensures
        final(v)@ == old(v)@.filter(pred),
{
    let ghost orig = v@;
    let mut i: usize = 0;
    let ghost mut j: int = 0;
    assert(orig.take(0).filter(pred) =~= Seq::<T>::empty()) by {
        reveal(Seq::filter);
    }
    assert(v@.take(0) =~= Seq::<T>::empty());
    assert(orig.skip(0) =~= orig);
    while i < v.len()
        invariant
            0 <= j <= orig.len(),
            i <= v.len(),
            v@.take(i as int) == orig.take(j).filter(pred),
            v@.skip(i as int) == orig.skip(j),
            forall|x: T| #[trigger] keep.requires((&x,)),
            forall|x: T, b: bool| keep.ensures((&x,), b) ==> b == pred(x),
        decreases v.len() - i,
    {
        assert(v@.skip(i as int).len() > 0);
        let k = keep(&v[i]);
        proof {
            assert(v@[i as int] == v@.skip(i as int)[0]);
            assert(orig.skip(j)[0] == orig[j]);
            assert(orig.take(j + 1) =~= orig.take(j).push(orig[j]));
            orig.take(j).lemma_filter_push(orig[j], pred);
        }
        if k {
            proof {
                assert(v@.take(i + 1) =~= v@.take(i as int).push(v@[i as int]));
                assert(v@.skip(i + 1) =~= v@.skip(i as int).skip(1));
                assert(orig.skip(j + 1) =~= orig.skip(j).skip(1));
            }
            i = i + 1;
        } else {
            let ghost before = v@;
            v.remove(i);
            proof {
                assert(v@.take(i as int) =~= before.take(i as int));
                assert(v@.skip(i as int) =~= before.skip(i as int).skip(1));
                assert(orig.skip(j + 1) =~= orig.skip(j).skip(1));
            }
        }
        proof {
            j = j + 1;
        }
    }
    proof {
        assert(orig.skip(j).len() == 0);
        assert(orig.take(j) =~= orig);
        assert(v@.take(i as int) =~= v@);
    }
}

/// The value most recently stored under `k`.
pub fn lookup<V: Copy>(m: &Vec<(String, V)>, k: &str) -> (r: Option<V>)
    ensures
        r == last_value(m@, k@),
{
    let mut found: Option<V> = None;
    let mut i: usize = 0;
    assert(m@.take(0) =~= Seq::<(String, V)>::empty());
    while i < m.len()
        invariant
            i <= m.len(),
            found == last_value(m@.take(i as int), k@),
        decreases m.len() - i,
    {
        assert(m@.take(i + 1).drop_last() =~= m@.take(i as int));
        if str_eq(m[i].0.as_str(), k) {
            found = Some(m[i].1);
        }
        i = i + 1;
    }
    assert(m@.take(m.len() as int) =~= m@);
    found
}

/// Whether some pair has key `k`.
pub fn contains_key<V>(m: &Vec<(String, V)>, k: &str) -> (r: bool)
    ensures
        r == has_key(m@, k@),
{
    let mut found = false;
    let mut i: usize = 0;
    assert(m@.take(0) =~= Seq::<(String, V)>::empty());
    while i < m.len()
        invariant
            i <= m.len(),
            found == has_key(m@.take(i as int), k@),
        decreases m.len() - i,
    {
        assert(m@.take(i + 1).drop_last() =~= m@.take(i as int));
        if str_eq(m[i].0.as_str(), k) {
            found = true;
        }
        i = i + 1;
    }
    assert(m@.take(m.len() as int) =~= m@);
    found
}

/// Takes every pair of key `k` out of the map.
pub fn remove_key<V>(m: &mut Vec<(String, V)>, k: &str)
    ensures
        final(m)@ == without_key(old(m)@, k@),
{
    let keep = |e: &(String, V)| -> (b: bool)
        ensures
            b == key_differs::<V>(k@)(*e),
        { !str_eq(e.0.as_str(), k) };
    retain_vec(m, keep, Ghost(key_differs::<V>(k@)));
}

/// Stores `v` under the key `k`, replacing what was there.
pub fn insert_key<V>(m: &mut Vec<(String, V)>, k: String, v: V)
    ensures
        final(m)@ == without_key(old(m)@, k@).push((k, v)),
{
    remove_key(m, k.as_str());
    m.push((k, v));
}

/// After storing under `k`, the value under `k` is the one stored, and every other key
/// keeps its value.
pub proof fn lemma_insert_key<V>(m: Seq<(String, V)>, k: String, v: V, o: Seq<char>)
    ensures
        last_value(without_key(m, k@).push((k, v)), k@) == Some(v),
        o != k@ ==> last_value(without_key(m, k@).push((k, v)), o) == last_value(m, o),
{
    assert(without_key(m, k@).push((k, v)).drop_last() =~= without_key(m, k@));
    if o != k@ {
        lemma_without_key_other(m, k@, o);
    }
}

/// Index of the pair holding the value most recently stored under `k`.
pub fn find_index<V>(m: &Vec<(String, V)>, k: &str) -> (r: Option<usize>)
    ensures
        match r {
            Some(i) => i < m@.len() && last_value(m@, k@) == Some(m@[i as int].1) && m@[i as int].0@ == k@
                && forall|j: int| i < j < m@.len() ==> (#[trigger] m@[j]).0@ != k@,
            None => last_value(m@, k@) is None,
        },
{
    let mut found: Option<usize> = None;
    let mut i: usize = 0;
    assert(m@.take(0) =~= Seq::<(String, V)>::empty());
    while i < m.len()
        invariant
            i <= m.len(),
            match found {
                Some(j) => j < i && last_value(m@.take(i as int), k@) == Some(m@[j as int].1) && m@[j as int].0@ == k@
                    && forall|t: int| j < t < i ==> (#[trigger] m@[t]).0@ != k@,
                None => last_value(m@.take(i as int), k@) is None,
            },
        decreases m.len() - i,
    {
        assert(m@.take(i + 1).drop_last() =~= m@.take(i as int));
        if str_eq(m[i].0.as_str(), k) {
            found = Some(i);
        }
        i = i + 1;
    }
    assert(m@.take(m.len() as int) =~= m@);
    found
}

/// Replacing the pair at the index `find_index` gave stores `v` under `k` and leaves the
/// other keys as they were.
pub proof fn lemma_update_found<V>(m: Seq<(String, V)>, i: int, k: String, v: V, o: Seq<char>)
    requires
        0 <= i < m.len(),
        m[i].0@ == k@,
        last_value(m, k@) == Some(m[i].1),
        forall|j: int| i < j < m.len() ==> m[j].0@ != k@,
    ensures
        last_value(m.update(i, (k, v)), o) == if o == k@ { Some(v) } else { last_value(m, o) },
    decreases m.len(),
{
    let t = m.update(i, (k, v));
    if i == m.len() - 1 {
        assert(t.drop_last() =~= m.drop_last());
    } else {
        assert(t.last() == m.last());
        assert(t.drop_last() =~= m.drop_last().update(i, (k, v)));
        assert forall|j: int| i < j < m.drop_last().len() implies m.drop_last()[j].0@ != k@ by {
            assert(m.drop_last()[j] == m[j]);
        }
        lemma_update_found(m.drop_last(), i, k, v, o);
    }
}

} // verus!
