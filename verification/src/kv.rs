//! Association vectors with `Map` views.
//!
//! Each contract's persistent dictionaries are modelled as vectors of
//! key/value pairs whose keys are pairwise distinct.  [`kv_map`] gives
//! the abstract `Map` a vector denotes; the lemmas here relate the
//! vector operations to `Map` operations.

use vstd::prelude::*;
use crate::ids::{Addr32, Key};
use crate::token::TokenIdentifier;

verus! {

/// The map denoted by a sequence of key/value pairs.  A later pair
/// with the same key would shadow an earlier one; under
/// [`kv_unique`] the case does not arise.
pub open spec fn kv_map<K: View, V: View>(s: Seq<(K, V)>) -> Map<K::V, V::V>
    decreases s.len(),
{
    if s.len() == 0 {
        Map::empty()
    } else {
        kv_map(s.drop_last()).insert(s.last().0@, s.last().1@)
    }
}

/// All keys of the sequence are pairwise distinct (as views).
pub open spec fn kv_unique<K: View, V>(s: Seq<(K, V)>) -> bool {
    forall|i: int, j: int| 0 <= i < j < s.len() ==> s[i].0@ != s[j].0@
}

/// A key is in the map exactly when some pair holds it.
pub proof fn lemma_kv_contains<K: View, V: View>(s: Seq<(K, V)>, k: K::V)
    ensures
        kv_map(s).contains_key(k) <==> exists|i: int| 0 <= i < s.len() && s[i].0@ == k,
    decreases s.len(),
{
    if s.len() > 0 {
        lemma_kv_contains(s.drop_last(), k);
        if s.last().0@ == k {
            assert(s[s.len() - 1].0@ == k);
        } else {
            if exists|i: int| 0 <= i < s.len() && s[i].0@ == k {
                let i = choose|i: int| 0 <= i < s.len() && s[i].0@ == k;
                assert(s.drop_last()[i].0@ == k);
            }
        }
    }
}

/// The map sends the key of pair `i` to its value, provided no later
/// pair shadows it.
pub proof fn lemma_kv_index<K: View, V: View>(s: Seq<(K, V)>, i: int)
    requires
        0 <= i < s.len(),
        forall|j: int| i < j < s.len() ==> s[j].0@ != s[i].0@,
    ensures
        kv_map(s).contains_key(s[i].0@),
        kv_map(s)[s[i].0@] == s[i].1@,
    decreases s.len(),
{
    if i == s.len() - 1 {
    } else {
        assert(s.drop_last()[i] == s[i]);
        lemma_kv_index(s.drop_last(), i);
    }
}

/// Removing pair `i` removes exactly its key from the map.
pub proof fn lemma_kv_remove<K: View, V: View>(s: Seq<(K, V)>, i: int)
    requires
        kv_unique(s),
        0 <= i < s.len(),
    ensures
        kv_unique(s.remove(i)),
        kv_map(s.remove(i)) =~= kv_map(s).remove(s[i].0@),
    decreases s.len(),
{
    let k = s[i].0@;
    if i == s.len() - 1 {
        assert(s.remove(i) =~= s.drop_last());
        lemma_kv_contains(s.drop_last(), k);
        assert(forall|j: int| 0 <= j < s.drop_last().len() ==> s.drop_last()[j].0@ != k);
        assert(kv_map(s.drop_last()) =~= kv_map(s).remove(k));
    } else {
        let dl = s.drop_last();
        assert(s.remove(i).drop_last() =~= dl.remove(i));
        assert(s.remove(i).last() == s.last());
        lemma_kv_remove(dl, i);
        assert(dl[i] == s[i]);
        assert(s.last().0@ != k);
        assert(kv_map(s.remove(i)) =~= kv_map(dl.remove(i)).insert(s.last().0@, s.last().1@));
        assert(kv_map(dl).remove(k).insert(s.last().0@, s.last().1@) =~= kv_map(dl).insert(
            s.last().0@,
            s.last().1@,
        ).remove(k));
    }
}

/// Replacing pair `i` by a pair with the same key view updates exactly
/// that key's value.
pub proof fn lemma_kv_update<K: View, V: View>(s: Seq<(K, V)>, i: int, p: (K, V))
    requires
        kv_unique(s),
        0 <= i < s.len(),
        p.0@ == s[i].0@,
    ensures
        kv_unique(s.update(i, p)),
        kv_map(s.update(i, p)) =~= kv_map(s).insert(p.0@, p.1@),
    decreases s.len(),
{
    let k = s[i].0@;
    if i == s.len() - 1 {
        assert(s.update(i, p).drop_last() =~= s.drop_last());
        assert(s.update(i, p).last() == p);
    } else {
        let dl = s.drop_last();
        assert(s.update(i, p).drop_last() =~= dl.update(i, p));
        assert(s.update(i, p).last() == s.last());
        assert(dl[i] == s[i]);
        lemma_kv_update(dl, i, p);
        assert(s.last().0@ != k);
        assert(kv_map(s.update(i, p)) =~= kv_map(dl).insert(k, p.1@).insert(
            s.last().0@,
            s.last().1@,
        ));
        assert(kv_map(dl).insert(k, p.1@).insert(s.last().0@, s.last().1@) =~= kv_map(dl).insert(
            s.last().0@,
            s.last().1@,
        ).insert(k, p.1@));
    }
}

/// Appending a pair with a fresh key inserts exactly that binding.
pub proof fn lemma_kv_push<K: View, V: View>(s: Seq<(K, V)>, p: (K, V))
    requires
        kv_unique(s),
        forall|i: int| 0 <= i < s.len() ==> s[i].0@ != p.0@,
    ensures
        kv_unique(s.push(p)),
        kv_map(s.push(p)) =~= kv_map(s).insert(p.0@, p.1@),
{
    assert(s.push(p).drop_last() =~= s);
    assert(s.push(p).last() == p);
}

/// Index of the pair holding a 64-bit key, if any.
pub fn u64_find<V>(entries: &Vec<(u64, V)>, key: u64) -> (r: Option<usize>)
    ensures
        match r {
            Some(i) => i < entries@.len() && entries@[i as int].0 == key,
            None => forall|i: int| 0 <= i < entries@.len() ==> entries@[i].0 != key,
        },
{
    let mut j: usize = 0;
    while j < entries.len()
        invariant
            j <= entries@.len(),
            forall|i: int| 0 <= i < j ==> entries@[i].0 != key,
        decreases entries@.len() - j,
    {
        if entries[j].0 == key {
            return Some(j);
        }
        j = j + 1;
    }
    None
}

/// The value bound to a 64-bit key, if any.
pub fn u64_get<'a, V: View>(entries: &'a Vec<(u64, V)>, key: u64) -> (r: Option<&'a V>)
    requires
        kv_unique(entries@),
    ensures
        match r {
            Some(v) => kv_map(entries@).contains_key(key) && kv_map(entries@)[key] == v@,
            None => !kv_map(entries@).contains_key(key),
        },
{
    proof {
        lemma_kv_contains(entries@, key);
    }
    match u64_find(entries, key) {
        Some(i) => {
            proof {
                lemma_kv_index(entries@, i as int);
            }
            Some(&entries[i].1)
        },
        None => None,
    }
}

/// Bind a 64-bit key to a value, replacing any existing binding.
pub fn u64_insert<V: View>(entries: &mut Vec<(u64, V)>, key: u64, value: V)
    requires
        kv_unique(old(entries)@),
    ensures
        kv_unique(final(entries)@),
        kv_map(final(entries)@) =~= kv_map(old(entries)@).insert(key, value@),
{
    match u64_find(entries, key) {
        Some(i) => {
            proof {
                lemma_kv_update(entries@, i as int, (key, value));
            }
            entries.set(i, (key, value));
        },
        None => {
            proof {
                lemma_kv_push(entries@, (key, value));
            }
            entries.push((key, value));
        },
    }
}

/// Drop the binding of a 64-bit key, if any.
pub fn u64_remove<V: View>(entries: &mut Vec<(u64, V)>, key: u64)
    requires
        kv_unique(old(entries)@),
    ensures
        kv_unique(final(entries)@),
        kv_map(final(entries)@) =~= kv_map(old(entries)@).remove(key),
{
    proof {
        lemma_kv_contains(entries@, key);
    }
    match u64_find(entries, key) {
        Some(i) => {
            proof {
                lemma_kv_remove(entries@, i as int);
            }
            entries.remove(i);
        },
        None => {
            proof {
                assert(kv_map(entries@) =~= kv_map(entries@).remove(key));
            }
        },
    }
}

/// Index of the pair holding an address key, if any.
pub fn addr_find<V>(entries: &Vec<(Addr32, V)>, key: Addr32) -> (r: Option<usize>)
    ensures
        match r {
            Some(i) => i < entries@.len() && entries@[i as int].0 == key,
            None => forall|i: int| 0 <= i < entries@.len() ==> entries@[i].0 != key,
        },
{
    let mut j: usize = 0;
    while j < entries.len()
        invariant
            j <= entries@.len(),
            forall|i: int| 0 <= i < j ==> entries@[i].0 != key,
        decreases entries@.len() - j,
    {
        if entries[j].0 == key {
            return Some(j);
        }
        j = j + 1;
    }
    None
}

/// The value bound to an address key, if any.
pub fn addr_get<'a, V: View>(entries: &'a Vec<(Addr32, V)>, key: Addr32) -> (r: Option<&'a V>)
    requires
        kv_unique(entries@),
    ensures
        match r {
            Some(v) => kv_map(entries@).contains_key(key) && kv_map(entries@)[key] == v@,
            None => !kv_map(entries@).contains_key(key),
        },
{
    proof {
        lemma_kv_contains(entries@, key);
    }
    match addr_find(entries, key) {
        Some(i) => {
            proof {
                lemma_kv_index(entries@, i as int);
            }
            Some(&entries[i].1)
        },
        None => None,
    }
}

/// Bind an address key to a value, replacing any existing binding.
pub fn addr_insert<V: View>(entries: &mut Vec<(Addr32, V)>, key: Addr32, value: V)
    requires
        kv_unique(old(entries)@),
    ensures
        kv_unique(final(entries)@),
        kv_map(final(entries)@) =~= kv_map(old(entries)@).insert(key, value@),
{
    match addr_find(entries, key) {
        Some(i) => {
            proof {
                lemma_kv_update(entries@, i as int, (key, value));
            }
            entries.set(i, (key, value));
        },
        None => {
            proof {
                lemma_kv_push(entries@, (key, value));
            }
            entries.push((key, value));
        },
    }
}

/// Index of the pair holding an account-or-contract key, if any.
pub fn key_find<V>(entries: &Vec<(Key, V)>, key: Key) -> (r: Option<usize>)
    ensures
        match r {
            Some(i) => i < entries@.len() && entries@[i as int].0 == key,
            None => forall|i: int| 0 <= i < entries@.len() ==> entries@[i].0 != key,
        },
{
    let mut j: usize = 0;
    while j < entries.len()
        invariant
            j <= entries@.len(),
            forall|i: int| 0 <= i < j ==> entries@[i].0 != key,
        decreases entries@.len() - j,
    {
        if entries[j].0 == key {
            return Some(j);
        }
        j = j + 1;
    }
    None
}

/// The value bound to an account-or-contract key, if any.
pub fn key_get<'a, V: View>(entries: &'a Vec<(Key, V)>, key: Key) -> (r: Option<&'a V>)
    requires
        kv_unique(entries@),
    ensures
        match r {
            Some(v) => kv_map(entries@).contains_key(key) && kv_map(entries@)[key] == v@,
            None => !kv_map(entries@).contains_key(key),
        },
{
    proof {
        lemma_kv_contains(entries@, key);
    }
    match key_find(entries, key) {
        Some(i) => {
            proof {
                lemma_kv_index(entries@, i as int);
            }
            Some(&entries[i].1)
        },
        None => None,
    }
}

/// Bind an account-or-contract key to a value, replacing any existing
/// binding.
pub fn key_insert<V: View>(entries: &mut Vec<(Key, V)>, key: Key, value: V)
    requires
        kv_unique(old(entries)@),
    ensures
        kv_unique(final(entries)@),
        kv_map(final(entries)@) =~= kv_map(old(entries)@).insert(key, value@),
{
    match key_find(entries, key) {
        Some(i) => {
            proof {
                lemma_kv_update(entries@, i as int, (key, value));
            }
            entries.set(i, (key, value));
        },
        None => {
            proof {
                lemma_kv_push(entries@, (key, value));
            }
            entries.push((key, value));
        },
    }
}

/// Index of the pair holding a token-identifier key, if any.
pub fn token_find<V>(entries: &Vec<(TokenIdentifier, V)>, key: &TokenIdentifier) -> (r: Option<
    usize,
>)
    ensures
        match r {
            Some(i) => i < entries@.len() && entries@[i as int].0@ == key@,
            None => forall|i: int| 0 <= i < entries@.len() ==> entries@[i].0@ != key@,
        },
{
    let mut j: usize = 0;
    while j < entries.len()
        invariant
            j <= entries@.len(),
            forall|i: int| 0 <= i < j ==> entries@[i].0@ != key@,
        decreases entries@.len() - j,
    {
        if entries[j].0.eq(key) {
            return Some(j);
        }
        j = j + 1;
    }
    None
}

/// The value bound to a token-identifier key, if any.
pub fn token_get<'a, V: View>(entries: &'a Vec<(TokenIdentifier, V)>, key: &TokenIdentifier) -> (r:
    Option<&'a V>)
    requires
        kv_unique(entries@),
    ensures
        match r {
            Some(v) => kv_map(entries@).contains_key(key@) && kv_map(entries@)[key@] == v@,
            None => !kv_map(entries@).contains_key(key@),
        },
{
    proof {
        lemma_kv_contains(entries@, key@);
    }
    match token_find(entries, key) {
        Some(i) => {
            proof {
                lemma_kv_index(entries@, i as int);
            }
            Some(&entries[i].1)
        },
        None => None,
    }
}

/// Bind a token-identifier key to a value, replacing any existing
/// binding.
pub fn token_insert<V: View>(
    entries: &mut Vec<(TokenIdentifier, V)>,
    key: &TokenIdentifier,
    value: V,
)
    requires
        kv_unique(old(entries)@),
    ensures
        kv_unique(final(entries)@),
        kv_map(final(entries)@) =~= kv_map(old(entries)@).insert(key@, value@),
{
    match token_find(entries, key) {
        Some(i) => {
            let pair = (key.duplicate(), value);
            proof {
                lemma_kv_update(entries@, i as int, pair);
            }
            entries.set(i, pair);
        },
        None => {
            let pair = (key.duplicate(), value);
            proof {
                lemma_kv_push(entries@, pair);
            }
            entries.push(pair);
        },
    }
}

/// Drop the binding of a token-identifier key, if any.
pub fn token_remove<V: View>(entries: &mut Vec<(TokenIdentifier, V)>, key: &TokenIdentifier)
    requires
        kv_unique(old(entries)@),
    ensures
        kv_unique(final(entries)@),
        kv_map(final(entries)@) =~= kv_map(old(entries)@).remove(key@),
{
    proof {
        lemma_kv_contains(entries@, key@);
    }
    match token_find(entries, key) {
        Some(i) => {
            proof {
                lemma_kv_remove(entries@, i as int);
            }
            entries.remove(i);
        },
        None => {
            proof {
                assert(kv_map(entries@) =~= kv_map(entries@).remove(key@));
            }
        },
    }
}

} // verus!
