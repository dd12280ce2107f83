//! Address-keyed association lists.
//!
//! Both the ledger's balance table and the arena's account table are held as
//! vectors of `(Address, value)` pairs with pairwise-distinct keys. This
//! module gives the lookup abstraction (`val_of`) and the lemmas that say how
//! it behaves under an update at a known index and under a push of a fresh
//! key.

use vstd::prelude::*;

use crate::address::Address;

verus! {

/// Every key occurs at most once.
pub open spec fn keys_unique<V>(s: Seq<(Address, V)>) -> bool {
    forall|i: int, j: int|
        0 <= i < j < s.len() ==> (#[trigger] s[i]).0 != (#[trigger] s[j]).0
}

/// Whether some entry has key `a`.
pub open spec fn has_key<V>(s: Seq<(Address, V)>, a: Address) -> bool {
    exists|i: int| 0 <= i < s.len() && (#[trigger] s[i]).0 == a
}

/// An index of an entry with key `a` (meaningful only when `has_key` holds).
pub open spec fn key_index<V>(s: Seq<(Address, V)>, a: Address) -> int {
    choose|i: int| 0 <= i < s.len() && (#[trigger] s[i]).0 == a
}

/// The value stored under key `a`, if any.
pub open spec fn val_of<V>(s: Seq<(Address, V)>, a: Address) -> Option<V> {
    if has_key(s, a) {
        Some(s[key_index(s, a)].1)
    } else {
        None
    }
}

/// With distinct keys, the entry at index `i` is the one `val_of` finds for
/// its key.
pub proof fn lemma_val_at<V>(s: Seq<(Address, V)>, i: int)
    requires
        keys_unique(s),
        0 <= i < s.len(),
    ensures
        has_key(s, s[i].0),
        val_of(s, s[i].0) == Some(s[i].1),
        key_index(s, s[i].0) == i,
{
    let a = s[i].0;
    assert(has_key(s, a));
    let j = key_index(s, a);
    if j != i {
        if j < i {
            assert(s[j].0 != s[i].0);
        } else {
            assert(s[i].0 != s[j].0);
        }
        assert(false);
    }
}

/// Replacing the value at index `i` changes the lookup for that key alone.
pub proof fn lemma_update<V>(s: Seq<(Address, V)>, i: int, v: V)
    requires
        keys_unique(s),
        0 <= i < s.len(),
    ensures
        keys_unique(s.update(i, (s[i].0, v))),
        val_of(s.update(i, (s[i].0, v)), s[i].0) == Some(v),
        forall|b: Address|
            b != s[i].0 ==> #[trigger] val_of(s.update(i, (s[i].0, v)), b) == val_of(s, b),
{
    let a = s[i].0;
    let s2 = s.update(i, (a, v));
    assert(forall|k: int| 0 <= k < s.len() ==> (#[trigger] s2[k]).0 == s[k].0);
    lemma_val_at(s2, i);
    assert forall|b: Address| b != a implies #[trigger] val_of(s2, b) == val_of(s, b) by {
        if has_key(s, b) {
            let k = key_index(s, b);
            lemma_val_at(s, k);
            assert(s2[k].0 == b);
            lemma_val_at(s2, k);
            assert(k != i);
        } else {
            assert(!has_key(s2, b)) by {
                if has_key(s2, b) {
                    let k = choose|k: int| 0 <= k < s2.len() && (#[trigger] s2[k]).0 == b;
                    assert(s[k].0 == b);
                }
            }
        }
    }
}

/// Appending a fresh key adds its binding and leaves every other lookup
/// unchanged.
pub proof fn lemma_push<V>(s: Seq<(Address, V)>, a: Address, v: V)
    requires
        keys_unique(s),
        !has_key(s, a),
    ensures
        keys_unique(s.push((a, v))),
        val_of(s.push((a, v)), a) == Some(v),
        forall|b: Address| b != a ==> #[trigger] val_of(s.push((a, v)), b) == val_of(s, b),
{
    let s2 = s.push((a, v));
    assert forall|i: int, j: int|
        0 <= i < j < s2.len() implies (#[trigger] s2[i]).0 != (#[trigger] s2[j]).0 by {
        if j == s.len() {
            assert(s2[i].0 == s[i].0);
            assert(!(0 <= i < s.len() && s[i].0 == a));
        } else {
            assert(s2[i].0 == s[i].0 && s2[j].0 == s[j].0);
        }
    }
    assert(s2[s.len() as int].0 == a);
    lemma_val_at(s2, s.len() as int);
    assert forall|b: Address| b != a implies #[trigger] val_of(s2, b) == val_of(s, b) by {
        if has_key(s, b) {
            let k = key_index(s, b);
            lemma_val_at(s, k);
            assert(s2[k].0 == b);
            lemma_val_at(s2, k);
        } else {
            assert(!has_key(s2, b)) by {
                if has_key(s2, b) {
                    let k = choose|k: int| 0 <= k < s2.len() && (#[trigger] s2[k]).0 == b;
                    assert(k < s.len());
                    assert(s[k].0 == b);
                }
            }
        }
    }
}

/// Finds the index of the entry with key `a`, scanning from the front.
pub fn find_index<V>(s: &Vec<(Address, V)>, a: Address) -> (r: Option<usize>)
    ensures
        match r {
            Some(i) => 0 <= i < s@.len() && s@[i as int].0 == a,
            None => !has_key(s@, a),
        },
{
    let mut i: usize = 0;
    while i < s.len()
        invariant
            0 <= i <= s@.len(),
            forall|j: int| 0 <= j < i ==> (#[trigger] s@[j]).0 != a,
        decreases s@.len() - i,
    {
        if s[i].0 == a {
            return Some(i);
        }
        i = i + 1;
    }
    None
}

} // verus!
