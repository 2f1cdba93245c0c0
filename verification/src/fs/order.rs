//! Lexicographic order on texts, as `str`'s `Ord` compares them (code
//! point by code point, which is the byte order of their UTF-8 encoding).
use vstd::prelude::*;
use crate::text::chars_of;

verus! {

/// `a` sorts strictly before `b`.
pub open spec fn text_less(a: Seq<char>, b: Seq<char>) -> bool
    decreases a.len(),
{
    if a.len() == 0 {
        b.len() > 0
    } else if b.len() == 0 {
        false
    } else if a[0] < b[0] {
        true
    } else if a[0] > b[0] {
        false
    } else {
        text_less(a.drop_first(), b.drop_first())
    }
}

/// The texts are in strictly increasing order (so none occurs twice).
pub open spec fn strictly_sorted(s: Seq<Seq<char>>) -> bool {
    forall|i: int, j: int| 0 <= i < j < s.len() ==> text_less(#[trigger] s[i], #[trigger] s[j])
}

/// No text sorts before itself.
pub proof fn text_less_irreflexive(a: Seq<char>)
    ensures
        !text_less(a, a),
    decreases a.len(),
{
    if a.len() > 0 {
        text_less_irreflexive(a.drop_first());
    }
}

/// Of two different texts, one sorts before the other.
pub proof fn text_less_total(a: Seq<char>, b: Seq<char>)
    ensures
        a == b || text_less(a, b) || text_less(b, a),
    decreases a.len(),
{
    if a.len() > 0 && b.len() > 0 && a[0] == b[0] {
        text_less_total(a.drop_first(), b.drop_first());
        if a.drop_first() == b.drop_first() {
            assert forall|k: int| 0 <= k < a.len() implies a[k] == b[k] by {
                if k > 0 {
                    assert(a[k] == a.drop_first()[k - 1]);
                    assert(b[k] == b.drop_first()[k - 1]);
                }
            }
            assert(a =~= b);
        }
    } else if a.len() == 0 && b.len() == 0 {
        assert(a =~= b);
    }
}

/// The order is transitive.
pub proof fn text_less_transitive(a: Seq<char>, b: Seq<char>, c: Seq<char>)
    requires
        text_less(a, b),
        text_less(b, c),
    ensures
        text_less(a, c),
    decreases a.len(),
{
    if a.len() > 0 && b.len() > 0 && c.len() > 0 {
        if a[0] == b[0] && b[0] == c[0] {
            text_less_transitive(a.drop_first(), b.drop_first(), c.drop_first());
        }
    }
}

/// The order is asymmetric.
pub proof fn text_less_asymmetric(a: Seq<char>, b: Seq<char>)
    requires
        text_less(a, b),
    ensures
        !text_less(b, a),
    decreases a.len(),
{
    if a.len() > 0 && b.len() > 0 && a[0] == b[0] {
        text_less_asymmetric(a.drop_first(), b.drop_first());
    }
}

fn chars_less(a: &Vec<char>, b: &Vec<char>) -> (r: bool)
    ensures
        r == text_less(a@, b@),
{
    let mut i: usize = 0;
    proof {
        assert(a@.subrange(0, a@.len() as int) =~= a@);
        assert(b@.subrange(0, b@.len() as int) =~= b@);
    }
    while i < a.len() && i < b.len() && a[i] == b[i]
        invariant
            i <= a@.len(),
            i <= b@.len(),
            text_less(a@, b@) == text_less(a@.subrange(i as int, a@.len() as int), b@.subrange(i as int, b@.len() as int)),
        decreases a@.len() - i,
    {
        proof {
            let sa = a@.subrange(i as int, a@.len() as int);
            let sb = b@.subrange(i as int, b@.len() as int);
            assert(sa.drop_first() =~= a@.subrange(i + 1, a@.len() as int));
            assert(sb.drop_first() =~= b@.subrange(i + 1, b@.len() as int));
        }
        i = i + 1;
    }
    proof {
        assert(a@.subrange(0, a@.len() as int) =~= a@);
        assert(b@.subrange(0, b@.len() as int) =~= b@);
    }
    if i == a.len() {
        i < b.len()
    } else if i == b.len() {
        false
    } else {
        a[i] < b[i]
    }
}

/// Whether `a` sorts strictly before `b`.
pub fn less_text(a: &str, b: &str) -> (r: bool)
    ensures
        r == text_less(a@, b@),
{
    let ac = chars_of(a);
    let bc = chars_of(b);
    chars_less(&ac, &bc)
}

/// Inserts `x` into the strictly sorted `v` unless it is there already.
pub fn insert_sorted(v: &mut Vec<String>, x: String)
    requires
        strictly_sorted(old(v)@.map_values(|s: String| s@)),
    ensures
        strictly_sorted(final(v)@.map_values(|s: String| s@)),
        final(v)@.map_values(|s: String| s@).to_set() == old(v)@.map_values(|s: String| s@).to_set().insert(x@),
{
    let ghost before = v@.map_values(|s: String| s@);
    let mut i: usize = 0;
    while i < v.len() && less_text(v[i].as_str(), x.as_str())
        invariant
            i <= v@.len(),
            v@.map_values(|s: String| s@) == before,
            forall|k: int| 0 <= k < i ==> text_less(#[trigger] before[k], x@),
        decreases v@.len() - i,
    {
        i = i + 1;
    }
    if i < v.len() && crate::text::same_text(v[i].as_str(), x.as_str()) {
        proof {
            assert(before.to_set().insert(x@) =~= before.to_set()) by {
                assert(before[i as int] == x@);
                assert(before.contains(x@));
            }
        }
        return;
    }
    v.insert(i, x);
    proof {
        let after = v@.map_values(|s: String| s@);
        assert(after =~= before.insert(i as int, x@));
        if i < before.len() {
            text_less_total(before[i as int], x@);
        }
        assert forall|p: int, q: int| 0 <= p < q < after.len() implies text_less(#[trigger] after[p], #[trigger] after[q]) by {
            if q < i {
            } else if q == i {
            } else if p < i {
                // p is before x, q is after it
                text_less_transitive(after[p], x@, before[i as int]);
                if q - 1 > i {
                    text_less_transitive(after[p], before[i as int], after[q]);
                }
            } else if p == i {
                if q - 1 > i {
                    text_less_transitive(x@, before[i as int], after[q]);
                }
            } else {
                assert(after[p] == before[p - 1]);
                assert(after[q] == before[q - 1]);
            }
        }
        assert(after.to_set() =~= before.to_set().insert(x@)) by {
            assert forall|t: Seq<char>| after.to_set().contains(t) <==> before.to_set().insert(x@).contains(t) by {
                if after.contains(t) {
                    let k = choose|k: int| 0 <= k < after.len() && after[k] == t;
                    if k < i {
                        assert(before[k] == t);
                    } else if k > i {
                        assert(before[k - 1] == t);
                    }
                }
                if before.contains(t) {
                    let k = choose|k: int| 0 <= k < before.len() && before[k] == t;
                    if k < i {
                        assert(after[k] == t);
                    } else {
                        assert(after[k + 1] == t);
                    }
                }
                if t == x@ {
                    assert(after[i as int] == t);
                }
            }
        }
    }
}

} // verus!
