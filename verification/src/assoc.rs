//! Small keyed lists: vectors of (name, value) pairs in which each name
//! occurs once, read as maps from names to values.
use vstd::prelude::*;
use crate::text::same_text;

verus! {

/// The map that a list of (name, value) pairs stands for; a later pair
/// overrides an earlier one of the same name.
pub open spec fn assoc_map<V>(s: Seq<(String, V)>) -> Map<Seq<char>, V>
    decreases s.len(),
{
    if s.len() == 0 {
        Map::empty()
    } else {
        assoc_map(s.drop_last()).insert(s.last().0@, s.last().1)
    }
}

/// Whether each name occurs once in `s`.
pub open spec fn distinct_keys<V>(s: Seq<(String, V)>) -> bool {
    forall|i: int, j: int| 0 <= i < j < s.len() ==> s[i].0@ != s[j].0@
}

/// A list with distinct names maps each of its names to its value, and
/// nothing else.
pub proof fn assoc_map_facts<V>(s: Seq<(String, V)>)
    requires
        distinct_keys(s),
    ensures
        forall|i: int| 0 <= i < s.len() ==> #[trigger] assoc_map(s).contains_key(s[i].0@) && assoc_map(s)[s[i].0@] == s[i].1,
        forall|k: Seq<char>| #[trigger] assoc_map(s).contains_key(k) ==> exists|i: int| 0 <= i < s.len() && s[i].0@ == k,
        assoc_map(s).dom().finite(),
        assoc_map(s).dom().len() == s.len(),
    decreases s.len(),
{
    if s.len() > 0 {
        let t = s.drop_last();
        assert(distinct_keys(t)) by {
            assert forall|i: int, j: int| 0 <= i < j < t.len() implies t[i].0@ != t[j].0@ by {
                assert(t[i] == s[i] && t[j] == s[j]);
            }
        }
        assoc_map_facts(t);
        assert(!assoc_map(t).contains_key(s.last().0@)) by {
            if assoc_map(t).contains_key(s.last().0@) {
                let i = choose|i: int| 0 <= i < t.len() && t[i].0@ == s.last().0@;
                assert(t[i] == s[i]);
            }
        }
        assert forall|i: int| 0 <= i < s.len() implies #[trigger] assoc_map(s).contains_key(s[i].0@) && assoc_map(s)[s[i].0@] == s[i].1 by {
            if i < s.len() - 1 {
                assert(t[i] == s[i]);
                assert(s[i].0@ != s.last().0@);
            }
        }
        assert forall|k: Seq<char>| #[trigger] assoc_map(s).contains_key(k) implies exists|i: int| 0 <= i < s.len() && s[i].0@ == k by {
            if k != s.last().0@ {
                let i = choose|i: int| 0 <= i < t.len() && t[i].0@ == k;
                assert(t[i] == s[i]);
            } else {
                assert(s[s.len() - 1].0@ == k);
            }
        }
    }
}

/// The position of the pair named `key`, if there is one.
pub fn assoc_find<V>(v: &Vec<(String, V)>, key: &str) -> (r: Option<usize>)
    ensures
        r matches Some(i) ==> i < v@.len() && v@[i as int].0@ == key@,
        r is None ==> forall|i: int| 0 <= i < v@.len() ==> v@[i].0@ != key@,
{
    let mut i: usize = 0;
    while i < v.len()
        invariant
            i <= v@.len(),
            forall|j: int| 0 <= j < i ==> v@[j].0@ != key@,
        decreases v@.len() - i,
    {
        if same_text(v[i].0.as_str(), key) {
            return Some(i);
        }
        i = i + 1;
    }
    None
}

/// Sets the pair named `key` to `value`: in place when there is one,
/// otherwise at the end.
pub fn assoc_set<V>(v: &mut Vec<(String, V)>, key: String, value: V)
    requires
        distinct_keys(old(v)@),
    ensures
        distinct_keys(final(v)@),
        assoc_map(final(v)@) == assoc_map(old(v)@).insert(key@, value),
{
    proof {
        assoc_map_facts(v@);
    }
    match assoc_find(v, key.as_str()) {
        Some(i) => {
            let ghost k = key@;
            v.set(i, (key, value));
            proof {
                assert(distinct_keys(v@)) by {
                    assert forall|a: int, b: int| 0 <= a < b < v@.len() implies v@[a].0@ != v@[b].0@ by {
                        if a != i && b != i {
                            assert(v@[a] == old(v)@[a] && v@[b] == old(v)@[b]);
                        } else if a == i {
                            assert(v@[b] == old(v)@[b]);
                        } else {
                            assert(v@[a] == old(v)@[a]);
                        }
                    }
                }
                assoc_map_facts(v@);
                assert(assoc_map(v@) =~= assoc_map(old(v)@).insert(k, value)) by {
                    assert forall|x: Seq<char>| #[trigger] assoc_map(v@).contains_key(x) <==> assoc_map(old(v)@).insert(k, value).contains_key(x) by {
                        assert(assoc_map(v@).contains_key(v@[i as int].0@));
                        if assoc_map(v@).contains_key(x) {
                            let j = choose|j: int| 0 <= j < v@.len() && v@[j].0@ == x;
                            if j != i {
                                assert(v@[j] == old(v)@[j]);
                            }
                        }
                        if assoc_map(old(v)@).contains_key(x) {
                            let j = choose|j: int| 0 <= j < old(v)@.len() && old(v)@[j].0@ == x;
                            if j != i {
                                assert(v@[j] == old(v)@[j]);
                            }
                        }
                    }
                    assert forall|x: Seq<char>| #[trigger] assoc_map(v@).contains_key(x) implies assoc_map(v@)[x] == assoc_map(old(v)@).insert(k, value)[x] by {
                        let j = choose|j: int| 0 <= j < v@.len() && v@[j].0@ == x;
                        if j != i {
                            assert(v@[j] == old(v)@[j]);
                        }
                    }
                }
            }
        }
        None => {
            let ghost k = key@;
            v.push((key, value));
            proof {
                assert(v@.drop_last() =~= old(v)@);
                assert(distinct_keys(v@)) by {
                    assert forall|a: int, b: int| 0 <= a < b < v@.len() implies v@[a].0@ != v@[b].0@ by {
                        if b < v@.len() - 1 {
                            assert(v@[a] == old(v)@[a] && v@[b] == old(v)@[b]);
                        } else {
                            assert(v@[a] == old(v)@[a]);
                        }
                    }
                }
            }
        }
    }
}

} // verus!
