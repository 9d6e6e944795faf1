//! Spec-level lookup in a sequence of records by a key, together with
//! the lemma that connects the recursive lookup to index-wise
//! membership. The stores keep their rows in `Vec`s whose keys are
//! pairwise distinct; every contract about "the row with this key" goes
//! through [`find_by`].

use vstd::prelude::*;

verus! {

/// The first entry of `s` whose key under `key` equals `k`, if any.
pub open spec fn find_by<T, K>(s: Seq<T>, key: spec_fn(T) -> K, k: K) -> Option<T>
    decreases s.len(),
{
    if s.len() == 0 {
        None
    } else if key(s[0]) == k {
        Some(s[0])
    } else {
        find_by(s.skip(1), key, k)
    }
}

/// No two entries of `s` share a key under `key`.
pub open spec fn unique_by<T, K>(s: Seq<T>, key: spec_fn(T) -> K) -> bool {
    forall|i: int, j: int| 0 <= i < j < s.len() ==> key(s[i]) != key(s[j])
}

/// Under key uniqueness, [`find_by`] answers exactly as index-wise
/// membership does: it returns the entry at any matching index, and
/// `None` exactly when no index matches.
pub proof fn lemma_find_by_characterization<T, K>(s: Seq<T>, key: spec_fn(T) -> K, k: K)
    requires
        unique_by(s, key),
    ensures
        forall|i: int| 0 <= i < s.len() && key(s[i]) == k ==> find_by(s, key, k) == Some(s[i]),
        (forall|i: int| 0 <= i < s.len() ==> key(s[i]) != k) ==> find_by(s, key, k) is None,
    decreases s.len(),
{
    if s.len() > 0 {
        let rest = s.skip(1);
        assert(forall|i: int| 0 <= i < rest.len() ==> rest[i] == s[i + 1]);
        lemma_find_by_characterization(rest, key, k);
        if key(s[0]) == k {
            assert forall|i: int| 0 <= i < s.len() && key(s[i]) == k implies find_by(s, key, k)
                == Some(s[i]) by {
                if i != 0 {
                    assert(key(s[0]) == key(s[i]));  // contradicts uniqueness
                }
            }
        } else {
            assert forall|i: int| 0 <= i < s.len() && key(s[i]) == k implies find_by(s, key, k)
                == Some(s[i]) by {
                assert(rest[i - 1] == s[i]);
            }
        }
    }
}

/// Whatever [`find_by`] returns was an entry of the sequence, under
/// the key looked up. Uniqueness is not needed.
pub proof fn lemma_find_by_member<T, K>(s: Seq<T>, key: spec_fn(T) -> K, k: K)
    ensures
        find_by(s, key, k) matches Some(x) ==> exists|i: int|
            0 <= i < s.len() && s[i] == x && key(x) == k,
    decreases s.len(),
{
    if s.len() > 0 {
        let rest = s.skip(1);
        assert(forall|i: int| 0 <= i < rest.len() ==> rest[i] == s[i + 1]);
        lemma_find_by_member(rest, key, k);
        if key(s[0]) != k && find_by(s, key, k) is Some {
            let x = find_by(s, key, k).unwrap();
            let i = choose|i: int| 0 <= i < rest.len() && rest[i] == x && key(x) == k;
            assert(s[i + 1] == x);
        }
    }
}

} // verus!
