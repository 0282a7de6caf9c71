//! Texts kept sorted (code point order) and without repetition: the order of `sort` followed
//! by `dedup` on a vector of strings.
use vstd::prelude::*;
use vstd::string::*;
use crate::text::{lemma_text_lt_irreflexive, lemma_text_lt_total, lemma_text_lt_transitive, owned, str_eq, str_lt, text_lt};

verus! {

/// The texts of a list of strings.
pub open spec fn views(v: Seq<String>) -> Seq<Seq<char>> {
    v.map_values(|s: String| s@)
}

/// Each text comes strictly before the next ones.
pub open spec fn strictly_sorted(s: Seq<Seq<char>>) -> bool {
    forall|i: int, j: int| 0 <= i < j < s.len() ==> text_lt(#[trigger] s[i], #[trigger] s[j])
}

/// Adds `x` to a strictly sorted list, keeping it strictly sorted.
pub fn insert_sorted(v: &mut Vec<String>, x: &str)
    requires
        strictly_sorted(views(old(v)@)),
    ensures
        strictly_sorted(views(final(v)@)),
        views(final(v)@).to_set() == views(old(v)@).to_set().insert(x@),
{
    let ghost s = views(v@);
    let mut p: usize = 0;
    while p < v.len()
        invariant
            p <= v.len(),
            s == views(v@),
            strictly_sorted(s),
            forall|i: int| 0 <= i < p ==> text_lt(#[trigger] s[i], x@),
        ensures
            p <= v.len(),
            s == views(v@),
            forall|i: int| 0 <= i < p ==> text_lt(#[trigger] s[i], x@),
            p < v.len() ==> !text_lt(s[p as int], x@),
        decreases v.len() - p,
    {
        if !str_lt(v[p].as_str(), x) {
            break;
        }
        p = p + 1;
    }
    if p < v.len() && str_eq(v[p].as_str(), x) {
        assert(s[p as int] == x@);
        assert(s.to_set() =~= s.to_set().insert(x@)) by {
            assert(s.to_set().contains(x@)) by {
                assert(s.contains(x@));
            }
        }
        return;
    }
    proof {
        if p < v.len() {
            lemma_text_lt_total(s[p as int], x@);
            assert(s[p as int] != x@);
            assert(text_lt(x@, s[p as int]));
        }
    }
    let ghost before = v@;
    v.insert(p, owned(x));
    proof {
        let t = views(v@);
        assert(t =~= s.insert(p as int, x@));
        assert forall|i: int, j: int| 0 <= i < j < t.len() implies text_lt(#[trigger] t[i], #[trigger] t[j]) by {
            if j < p {
                assert(t[i] == s[i] && t[j] == s[j]);
            } else if j == p {
                assert(t[i] == s[i]);
            } else if i < p {
                assert(t[i] == s[i] && t[j] == s[j - 1]);
                if p < s.len() {
                    assert(text_lt(x@, s[p as int]));
                    if j - 1 > p {
                        lemma_text_lt_transitive(x@, s[p as int], s[j - 1]);
                    }
                    lemma_text_lt_transitive(s[i], x@, s[j - 1]);
                }
            } else if i == p {
                assert(t[j] == s[j - 1]);
                assert(text_lt(x@, s[p as int]));
                if j - 1 > p {
                    lemma_text_lt_transitive(x@, s[p as int], s[j - 1]);
                }
            } else {
                assert(t[i] == s[i - 1] && t[j] == s[j - 1]);
            }
        }
        assert(t.to_set() =~= s.to_set().insert(x@)) by {
            assert forall|e: Seq<char>| t.to_set().contains(e) <==> s.to_set().insert(x@).contains(e) by {
                if t.contains(e) {
                    let k = choose|k: int| 0 <= k < t.len() && t[k] == e;
                    if k < p {
                        assert(s[k] == e);
                    } else if k > p {
                        assert(s[k - 1] == e);
                    }
                }
                if s.contains(e) {
                    let k = choose|k: int| 0 <= k < s.len() && s[k] == e;
                    if k < p {
                        assert(t[k] == e);
                    } else {
                        assert(t[k + 1] == e);
                    }
                }
                if e == x@ {
                    assert(t[p as int] == e);
                }
            }
        }
    }
}

/// The keys of a table, as a set of texts.
pub open spec fn key_set<V>(m: Seq<(String, V)>) -> Set<Seq<char>> {
    m.map_values(|e: (String, V)| e.0@).to_set()
}

/// Adds the keys of `m` to a strictly sorted list.
pub fn insert_keys<V>(v: &mut Vec<String>, m: &Vec<(String, V)>)
    requires
        strictly_sorted(views(old(v)@)),
    ensures
        strictly_sorted(views(final(v)@)),
        views(final(v)@).to_set() == views(old(v)@).to_set() + key_set(m@),
{
    let ghost start = views(v@).to_set();
    let ghost ks = m@.map_values(|e: (String, V)| e.0@);
    let mut i: usize = 0;
    assert(ks.take(0).to_set() =~= Set::<Seq<char>>::empty()) by {
        assert(ks.take(0) =~= Seq::<Seq<char>>::empty());
    }
    assert(start =~= start + ks.take(0).to_set());
    while i < m.len()
        invariant
            i <= m.len(),
            ks == m@.map_values(|e: (String, V)| e.0@),
            strictly_sorted(views(v@)),
            views(v@).to_set() == start + ks.take(i as int).to_set(),
        decreases m.len() - i,
    {
        insert_sorted(v, m[i].0.as_str());
        proof {
            assert(ks.take(i + 1) =~= ks.take(i as int).push(ks[i as int]));
            assert(ks.take(i + 1).to_set() =~= ks.take(i as int).to_set().insert(ks[i as int])) by {
                assert forall|e: Seq<char>| ks.take(i + 1).to_set().contains(e) <==> ks.take(i as int).to_set().insert(ks[i as int]).contains(e) by {
                    let t = ks.take(i + 1);
                    if t.contains(e) {
                        let k = choose|k: int| 0 <= k < t.len() && t[k] == e;
                        if k < i {
                            assert(ks.take(i as int)[k] == e);
                        }
                    }
                    if ks.take(i as int).contains(e) {
                        let k = choose|k: int| 0 <= k < i && ks.take(i as int)[k] == e;
                        assert(t[k] == e);
                    }
                    if e == ks[i as int] {
                        assert(t[i as int] == e);
                    }
                }
            }
            assert(views(v@).to_set() =~= start + ks.take(i + 1).to_set());
        }
        i = i + 1;
    }
    assert(ks.take(m.len() as int) =~= ks);
}

} // verus!
