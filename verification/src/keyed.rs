//! Lists of entries keyed by a text, used as maps: the last entry of a key gives its
//! value, and setting a key replaces its entries.
use vstd::prelude::*;

verus! {

/// The entries of `v` whose key is not `k`, in order.
pub open spec fn drop_key<V>(v: Seq<(Seq<char>, V)>, k: Seq<char>) -> Seq<(Seq<char>, V)>
    decreases v.len(),
{
    if v.len() == 0 {
        v
    } else {
        let r = drop_key(v.drop_last(), k);
        if v.last().0 == k {
            r
        } else {
            r.push(v.last())
        }
    }
}

/// The value of the last entry of `v` with key `k`.
pub open spec fn value_of<V>(v: Seq<(Seq<char>, V)>, k: Seq<char>) -> Option<V>
    decreases v.len(),
{
    if v.len() == 0 {
        None
    } else if v.last().0 == k {
        Some(v.last().1)
    } else {
        value_of(v.drop_last(), k)
    }
}

/// `v` with the entry for `k` set to `x`: earlier entries for `k` go, the new one
/// comes last.
pub open spec fn set_key<V>(v: Seq<(Seq<char>, V)>, k: Seq<char>, x: V) -> Seq<(Seq<char>, V)> {
    drop_key(v, k).push((k, x))
}

/// Dropping the entries of one key leaves the values of the other keys as they were,
/// and the key itself without a value.
pub proof fn lemma_drop_key_value_of<V>(v: Seq<(Seq<char>, V)>, k: Seq<char>, q: Seq<char>)
    ensures
        q != k ==> value_of(drop_key(v, k), q) == value_of(v, q),
        value_of(drop_key(v, k), k) is None,
    decreases v.len(),
{
    if v.len() > 0 {
        lemma_drop_key_value_of(v.drop_last(), k, q);
        let r = drop_key(v.drop_last(), k);
        if v.last().0 != k {
            assert(r.push(v.last()).drop_last() == r);
        }
    }
}

/// A keyed list behaves as a map: after setting `k` to `x`, `k` has the value `x` and
/// every other key keeps its value.
pub proof fn lemma_set_key<V>(v: Seq<(Seq<char>, V)>, k: Seq<char>, x: V, q: Seq<char>)
    ensures
        value_of(set_key(v, k, x), k) == Some(x),
        q != k ==> value_of(set_key(v, k, x), q) == value_of(v, q),
{
    let d = drop_key(v, k);
    assert(set_key(v, k, x).drop_last() == d);
    if q != k {
        lemma_drop_key_value_of(v, k, q);
    }
}

} // verus!
