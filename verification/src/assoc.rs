//! Association lists with string keys, and their abstraction as maps.
//!
//! The in-memory backends store their entries as vectors of key-value pairs
//! with pairwise distinct keys; contracts speak of the corresponding
//! mathematical map.

use vstd::prelude::*;

use crate::util::str_eq;

verus! {

use vstd::pervasive::VecAdditionalExecFns;

/// The map abstraction of an association list. A later entry would shadow an
/// earlier one with the same key; the backends keep keys distinct, so no
/// shadowing occurs.
pub open spec fn assoc_map<V: View>(s: Seq<(String, V)>) -> Map<Seq<char>, V::V>
    decreases s.len(),
{
    if s.len() == 0 {
        Map::empty()
    } else {
        assoc_map(s.drop_last()).insert(s.last().0@, s.last().1@)
    }
}

/// Whether the keys of the association list are pairwise distinct.
pub open spec fn keys_distinct<V>(s: Seq<(String, V)>) -> bool {
    forall|i: int, j: int| 0 <= i < j < s.len() ==> (#[trigger] s[i]).0@ != (#[trigger] s[j]).0@
}

/// Whether some entry of the association list has key `k`.
pub open spec fn has_key<V>(s: Seq<(String, V)>, k: Seq<char>) -> bool {
    exists|i: int| 0 <= i < s.len() && (#[trigger] s[i]).0@ == k
}

/// Distinctness of keys survives dropping the last entry.
pub proof fn lemma_distinct_drop_last<V>(s: Seq<(String, V)>)
    requires
        keys_distinct(s),
        s.len() > 0,
    ensures
        keys_distinct(s.drop_last()),
{
    assert forall|i: int, j: int|
        0 <= i < j < s.drop_last().len() implies (#[trigger] s.drop_last()[i]).0@ != (
    #[trigger] s.drop_last()[j]).0@ by {
        assert(s.drop_last()[i] == s[i]);
        assert(s.drop_last()[j] == s[j]);
    }
}

/// The domain of the map abstraction is exactly the set of keys of the list.
pub proof fn lemma_assoc_dom<V: View>(s: Seq<(String, V)>)
    ensures
        forall|k: Seq<char>| #[trigger] assoc_map(s).dom().contains(k) <==> has_key(s, k),
    decreases s.len(),
{
    if s.len() == 0 {
        assert forall|k: Seq<char>| #[trigger]
            assoc_map(s).dom().contains(k) <==> has_key(s, k) by {
            assert(!has_key(s, k));
        }
    } else {
        lemma_assoc_dom(s.drop_last());
        assert forall|k: Seq<char>| #[trigger]
            assoc_map(s).dom().contains(k) <==> has_key(s, k) by {
            assert(assoc_map(s) == assoc_map(s.drop_last()).insert(s.last().0@, s.last().1@));
            if assoc_map(s).dom().contains(k) {
                if k == s.last().0@ {
                    assert(s[s.len() - 1].0@ == k);
                    assert(has_key(s, k));
                } else {
                    assert(assoc_map(s.drop_last()).dom().contains(k));
                    assert(has_key(s.drop_last(), k));
                    let i = choose|i: int|
                        0 <= i < s.drop_last().len() && (#[trigger] s.drop_last()[i]).0@ == k;
                    assert(s.drop_last()[i] == s[i]);
                    assert(s[i].0@ == k);
                    assert(has_key(s, k));
                }
            }
            if has_key(s, k) {
                let i = choose|i: int| 0 <= i < s.len() && (#[trigger] s[i]).0@ == k;
                if i == s.len() - 1 {
                    assert(k == s.last().0@);
                    assert(assoc_map(s).dom().contains(k));
                } else {
                    assert(s.drop_last()[i] == s[i]);
                    assert(has_key(s.drop_last(), k));
                    assert(assoc_map(s.drop_last()).dom().contains(k));
                    assert(assoc_map(s).dom().contains(k));
                }
            }
        }
    }
}

/// With distinct keys, entry `i` of the list is what the map abstraction
/// holds at its key.
pub proof fn lemma_assoc_value<V: View>(s: Seq<(String, V)>, i: int)
    requires
        keys_distinct(s),
        0 <= i < s.len(),
    ensures
        assoc_map(s).dom().contains(s[i].0@),
        assoc_map(s)[s[i].0@] == s[i].1@,
    decreases s.len(),
{
    if i == s.len() - 1 {
    } else {
        lemma_distinct_drop_last(s);
        assert(s.drop_last()[i] == s[i]);
        lemma_assoc_value(s.drop_last(), i);
        assert(s[i].0@ != s.last().0@);
    }
}

/// Appending an entry inserts its key-value pair into the map abstraction.
pub proof fn lemma_assoc_push<V: View>(s: Seq<(String, V)>, p: (String, V))
    ensures
        assoc_map(s.push(p)) == assoc_map(s).insert(p.0@, p.1@),
{
    assert(s.push(p).drop_last() =~= s);
    assert(s.push(p).last() == p);
}

/// Replacing entry `i` by an entry with the same key updates the map
/// abstraction at that key, and keeps the keys distinct.
pub proof fn lemma_assoc_update<V: View>(s: Seq<(String, V)>, i: int, p: (String, V))
    requires
        keys_distinct(s),
        0 <= i < s.len(),
        p.0@ == s[i].0@,
    ensures
        assoc_map(s.update(i, p)) == assoc_map(s).insert(p.0@, p.1@),
        keys_distinct(s.update(i, p)),
    decreases s.len(),
{
    assert forall|x: int, y: int|
        0 <= x < y < s.update(i, p).len() implies (#[trigger] s.update(i, p)[x]).0@ != (
    #[trigger] s.update(i, p)[y]).0@ by {
        assert(s[x].0@ != s[y].0@);
    }
    if i == s.len() - 1 {
        assert(s.update(i, p).drop_last() =~= s.drop_last());
        assert(s.update(i, p).last() == p);
        assert(assoc_map(s.update(i, p)) =~~= assoc_map(s).insert(p.0@, p.1@));
    } else {
        lemma_distinct_drop_last(s);
        assert(s.drop_last()[i] == s[i]);
        lemma_assoc_update(s.drop_last(), i, p);
        assert(s.update(i, p).drop_last() =~= s.drop_last().update(i, p));
        assert(s.update(i, p).last() == s.last());
        assert(s[i].0@ != s.last().0@);
        assert(assoc_map(s.update(i, p)) =~~= assoc_map(s).insert(p.0@, p.1@));
    }
}

/// Removing entry `i` removes its key from the map abstraction, and keeps
/// the keys distinct.
pub proof fn lemma_assoc_remove<V: View>(s: Seq<(String, V)>, i: int)
    requires
        keys_distinct(s),
        0 <= i < s.len(),
    ensures
        assoc_map(s.remove(i)) == assoc_map(s).remove(s[i].0@),
        keys_distinct(s.remove(i)),
    decreases s.len(),
{
    assert forall|x: int, y: int|
        0 <= x < y < s.remove(i).len() implies (#[trigger] s.remove(i)[x]).0@ != (#[trigger] s
        .remove(i)[y]).0@ by {
        let xo: int = if x < i {
            x
        } else {
            x + 1
        };
        let yo: int = if y < i {
            y
        } else {
            y + 1
        };
        assert(s.remove(i)[x] == s[xo]);
        assert(s.remove(i)[y] == s[yo]);
        assert(s[xo].0@ != s[yo].0@);
    }
    if i == s.len() - 1 {
        assert(s.remove(i) =~= s.drop_last());
        lemma_assoc_dom(s.drop_last());
        lemma_distinct_drop_last(s);
        assert(!has_key(s.drop_last(), s[i].0@)) by {
            if has_key(s.drop_last(), s[i].0@) {
                let j = choose|j: int|
                    0 <= j < s.drop_last().len() && (#[trigger] s.drop_last()[j]).0@ == s[i].0@;
                assert(s[j].0@ == s[i].0@);
            }
        }
        assert(assoc_map(s.remove(i)) =~~= assoc_map(s).remove(s[i].0@));
    } else {
        lemma_distinct_drop_last(s);
        assert(s.drop_last()[i] == s[i]);
        lemma_assoc_remove(s.drop_last(), i);
        assert(s.remove(i).drop_last() =~= s.drop_last().remove(i));
        assert(s.remove(i).last() == s.last());
        assert(s[i].0@ != s.last().0@);
        assert(assoc_map(s.remove(i)) =~~= assoc_map(s).remove(s[i].0@));
    }
}

/// Two association lists whose entries agree view-by-view abstract to the
/// same map.
pub proof fn lemma_assoc_congruent<V: View>(s: Seq<(String, V)>, t: Seq<(String, V)>)
    requires
        s.len() == t.len(),
        forall|i: int|
            0 <= i < s.len() ==> (#[trigger] s[i]).0@ == (#[trigger] t[i]).0@ && s[i].1@
                == t[i].1@,
    ensures
        assoc_map(s) == assoc_map(t),
    decreases s.len(),
{
    if s.len() > 0 {
        assert forall|i: int|
            0 <= i < s.drop_last().len() implies (#[trigger] s.drop_last()[i]).0@ == (
        #[trigger] t.drop_last()[i]).0@ && s.drop_last()[i].1@ == t.drop_last()[i].1@ by {
            assert(s.drop_last()[i] == s[i]);
            assert(t.drop_last()[i] == t[i]);
        }
        lemma_assoc_congruent(s.drop_last(), t.drop_last());
        assert(s.last().0@ == t.last().0@ && s.last().1@ == t.last().1@) by {
            assert(s[s.len() - 1].0@ == t[s.len() - 1].0@ && s[s.len() - 1].1@ == t[s.len()
                - 1].1@);
        }
    }
}

/// Returns the index of the entry holding `key`, if any.
pub fn find_key<V>(entries: &Vec<(String, V)>, key: &str) -> (r: Option<usize>)
    ensures
        match r {
            Some(i) => i < entries@.len() && entries@[i as int].0@ == key@,
            None => !has_key(entries@, key@),
        },
{
    let mut i: usize = 0;
    while i < entries.len()
        invariant
            i <= entries@.len(),
            forall|j: int| 0 <= j < i ==> (#[trigger] entries@[j]).0@ != key@,
        decreases entries@.len() - i,
    {
        if str_eq(entries[i].0.as_str(), key) {
            return Some(i);
        }
        i = i + 1;
    }
    proof {
        if has_key(entries@, key@) {
            let j = choose|j: int| 0 <= j < entries@.len() && (#[trigger] entries@[j]).0@ == key@;
            assert(entries@[j].0@ != key@);
        }
    }
    None
}

/// Stores `value` at `key`, replacing the previous value if the key is
/// already present.
pub fn assoc_set<V: View>(entries: &mut Vec<(String, V)>, key: &str, value: V)
    requires
        keys_distinct(old(entries)@),
    ensures
        keys_distinct(final(entries)@),
        assoc_map(final(entries)@) == assoc_map(old(entries)@).insert(key@, value@),
{
    let ghost s0 = entries@;
    match find_key(entries, key) {
        Some(i) => {
            let p = (key.to_owned(), value);
            let ghost pp = p;
            entries.set(i, p);
            proof {
                lemma_assoc_update(s0, i as int, pp);
            }
        },
        None => {
            let p = (key.to_owned(), value);
            let ghost pp = p;
            entries.push(p);
            proof {
                lemma_assoc_push(s0, pp);
                assert forall|x: int, y: int|
                    0 <= x < y < entries@.len() implies (#[trigger] entries@[x]).0@ != (
                #[trigger] entries@[y]).0@ by {
                    if y < s0.len() {
                        assert(s0[x].0@ != s0[y].0@);
                    } else {
                        assert(entries@[y].0@ == key@);
                        if s0[x].0@ == key@ {
                            assert(has_key(s0, key@));
                        }
                    }
                }
            }
        },
    }
}

/// Removes `key`; a no-op if the key is absent.
pub fn assoc_delete<V: View>(entries: &mut Vec<(String, V)>, key: &str)
    requires
        keys_distinct(old(entries)@),
    ensures
        keys_distinct(final(entries)@),
        assoc_map(final(entries)@) == assoc_map(old(entries)@).remove(key@),
{
    let ghost s0 = entries@;
    match find_key(entries, key) {
        Some(i) => {
            entries.remove(i);
            proof {
                lemma_assoc_remove(s0, i as int);
            }
        },
        None => {
            proof {
                lemma_assoc_dom::<V>(s0);
                assert(assoc_map(s0).remove(key@) =~~= assoc_map(s0));
            }
        },
    }
}

} // verus!
