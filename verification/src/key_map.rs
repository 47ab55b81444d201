//! An ordered map from 96-byte keys to values.
//!
//! The keys are the byte encodings of authority keys. The map holds each key
//! at most once and keeps its entries in ascending lexicographic order of
//! their keys, so that walking the map by index is deterministic.

use vstd::prelude::*;
use crate::bytes::{
    array_eq, array_lt, lemma_lex_lt_asymmetric, lemma_lex_lt_total, lemma_lex_lt_transitive,
    lex_lt,
};

verus! {

/// Number of bytes in a key.
pub const KEY_LENGTH: usize = 96;

/// The entries are in strictly ascending order of their keys.
pub open spec fn ascending<V>(pairs: Seq<(Seq<u8>, V)>) -> bool {
    &&& forall|i: int| 0 <= i < pairs.len() ==> (#[trigger] pairs[i]).0.len() == KEY_LENGTH
    &&& forall|i: int, j: int|
        0 <= i < j < pairs.len() ==> lex_lt((#[trigger] pairs[i]).0, (#[trigger] pairs[j]).0)
}

/// Some entry of `pairs` has the key `key`.
pub open spec fn has_key<V>(pairs: Seq<(Seq<u8>, V)>, key: Seq<u8>) -> bool {
    exists|i: int| 0 <= i < pairs.len() && (#[trigger] pairs[i]).0 == key
}

/// The place of the entry with the key `key`; meaningful when there is one.
pub open spec fn place_of<V>(pairs: Seq<(Seq<u8>, V)>, key: Seq<u8>) -> int {
    choose|i: int| 0 <= i < pairs.len() && (#[trigger] pairs[i]).0 == key
}

/// The entries as a map from key to value.
pub open spec fn as_map<V>(pairs: Seq<(Seq<u8>, V)>) -> Map<Seq<u8>, V> {
    Map::new(|key: Seq<u8>| has_key(pairs, key), |key: Seq<u8>| pairs[place_of(pairs, key)].1)
}

/// `at` is the place where an entry with the key `key` belongs: every entry
/// before it has a smaller key, and the entry at it, if there is one, has not.
pub open spec fn is_rank<V>(pairs: Seq<(Seq<u8>, V)>, key: Seq<u8>, at: int) -> bool {
    &&& 0 <= at <= pairs.len()
    &&& forall|i: int| 0 <= i < at ==> lex_lt((#[trigger] pairs[i]).0, key)
    &&& at < pairs.len() ==> !lex_lt(pairs[at].0, key)
}

/// The place where an entry with the key `key` belongs.
pub open spec fn rank<V>(pairs: Seq<(Seq<u8>, V)>, key: Seq<u8>) -> int {
    choose|at: int| is_rank(pairs, key, at)
}

/// The entries after `value` was stored under `key`: the entry with that key
/// gets the new value, or a new entry is put where the order wants it.
pub open spec fn put<V>(pairs: Seq<(Seq<u8>, V)>, key: Seq<u8>, value: V) -> Seq<(Seq<u8>, V)> {
    let at = rank(pairs, key);
    if at < pairs.len() && pairs[at].0 == key {
        pairs.update(at, (key, value))
    } else {
        pairs.insert(at, (key, value))
    }
}

/// There is one place where a key belongs.
pub proof fn lemma_rank_is<V>(pairs: Seq<(Seq<u8>, V)>, key: Seq<u8>, at: int)
    requires
        is_rank(pairs, key, at),
    ensures
        rank(pairs, key) == at,
{
    let r = rank(pairs, key);
    assert(is_rank(pairs, key, r));
    if r < at {
        assert(lex_lt(pairs[r].0, key));
    }
    if at < r {
        assert(lex_lt(pairs[at].0, key));
    }
}

/// Every key has a place where it belongs.
pub proof fn lemma_rank_exists<V>(pairs: Seq<(Seq<u8>, V)>, key: Seq<u8>, upto: int)
    requires
        0 <= upto <= pairs.len(),
        forall|i: int| 0 <= i < upto ==> lex_lt((#[trigger] pairs[i]).0, key),
    ensures
        is_rank(pairs, key, rank(pairs, key)),
    decreases pairs.len() - upto,
{
    if upto == pairs.len() || !lex_lt(pairs[upto].0, key) {
        assert(is_rank(pairs, key, upto));
    } else {
        lemma_rank_exists(pairs, key, upto + 1);
    }
}

/// Storing a value keeps the order, and in the map it is an insertion.
pub proof fn lemma_put<V>(pairs: Seq<(Seq<u8>, V)>, key: Seq<u8>, value: V)
    requires
        ascending(pairs),
        key.len() == KEY_LENGTH,
    ensures
        ascending(put(pairs, key, value)),
        as_map(put(pairs, key, value)) == as_map(pairs).insert(key, value),
        put(pairs, key, value).len() == pairs.len() + (if has_key(pairs, key) {
            0int
        } else {
            1int
        }),
{
    lemma_rank_exists(pairs, key, 0);
    let at = rank(pairs, key);
    if at < pairs.len() && pairs[at].0 == key {
        lemma_update_is_insert(pairs, at, value);
        assert(has_key(pairs, key));
    } else {
        if at < pairs.len() {
            lemma_lex_lt_total(key, pairs[at].0);
        }
        lemma_insert_is_insert(pairs, at, key, value);
    }
}

/// In ascending entries, the entry at `at` is the one that the map holds for
/// its key.
pub proof fn lemma_entry_is_mapped<V>(pairs: Seq<(Seq<u8>, V)>, at: int)
    requires
        ascending(pairs),
        0 <= at < pairs.len(),
    ensures
        has_key(pairs, pairs[at].0),
        place_of(pairs, pairs[at].0) == at,
        as_map(pairs).contains_key(pairs[at].0),
        as_map(pairs)[pairs[at].0] == pairs[at].1,
{
    let key = pairs[at].0;
    assert(has_key(pairs, key));
    let p = place_of(pairs, key);
    if p < at {
        assert(lex_lt(pairs[p].0, pairs[at].0));
        lemma_lex_lt_asymmetric(key, key);
    }
    if at < p {
        assert(lex_lt(pairs[at].0, pairs[p].0));
        lemma_lex_lt_asymmetric(key, key);
    }
}

/// Replacing the value of the entry at `at` is an insertion under its key.
pub proof fn lemma_update_is_insert<V>(pairs: Seq<(Seq<u8>, V)>, at: int, value: V)
    requires
        ascending(pairs),
        0 <= at < pairs.len(),
    ensures
        ascending(pairs.update(at, (pairs[at].0, value))),
        as_map(pairs.update(at, (pairs[at].0, value))) == as_map(pairs).insert(
            pairs[at].0,
            value,
        ),
{
    let key = pairs[at].0;
    let after = pairs.update(at, (key, value));
    assert forall|i: int, j: int| 0 <= i < j < after.len() implies lex_lt(
        (#[trigger] after[i]).0,
        (#[trigger] after[j]).0,
    ) by {
        assert(after[i].0 == pairs[i].0);
        assert(after[j].0 == pairs[j].0);
    }
    assert forall|i: int| 0 <= i < after.len() implies (#[trigger] after[i]).0.len()
        == KEY_LENGTH by {
        assert(after[i].0 == pairs[i].0);
    }
    let wanted = as_map(pairs).insert(key, value);
    assert forall|k: Seq<u8>| as_map(after).contains_key(k) <==> wanted.contains_key(k) by {
        if has_key(after, k) {
            let i = place_of(after, k);
            assert(pairs[i].0 == k);
        }
        if has_key(pairs, k) {
            let i = place_of(pairs, k);
            assert(after[i].0 == k);
        }
        assert(after[at].0 == key);
    }
    assert forall|k: Seq<u8>| as_map(after).contains_key(k) implies as_map(after)[k]
        == wanted[k] by {
        let i = place_of(after, k);
        lemma_entry_is_mapped(after, i);
        if i != at {
            assert(after[i] == pairs[i]);
            lemma_entry_is_mapped(pairs, i);
            if k == key {
                lemma_entry_is_mapped(pairs, at);
            }
        }
    }
    assert(as_map(after) =~= wanted);
}

/// Putting a new entry between the smaller keys and the greater keys is an
/// insertion under its key, and keeps the order.
pub proof fn lemma_insert_is_insert<V>(pairs: Seq<(Seq<u8>, V)>, at: int, key: Seq<u8>, value: V)
    requires
        ascending(pairs),
        key.len() == KEY_LENGTH,
        0 <= at <= pairs.len(),
        forall|i: int| 0 <= i < at ==> lex_lt((#[trigger] pairs[i]).0, key),
        at < pairs.len() ==> lex_lt(key, pairs[at].0),
    ensures
        ascending(pairs.insert(at, (key, value))),
        !has_key(pairs, key),
        as_map(pairs.insert(at, (key, value))) == as_map(pairs).insert(key, value),
{
    let after = pairs.insert(at, (key, value));
    assert forall|i: int| at <= i < pairs.len() implies lex_lt(key, (#[trigger] pairs[i]).0) by {
        if at < i {
            assert(lex_lt(pairs[at].0, pairs[i].0));
            lemma_lex_lt_transitive(key, pairs[at].0, pairs[i].0);
        }
    }
    assert forall|i: int, j: int| 0 <= i < j < after.len() implies lex_lt(
        (#[trigger] after[i]).0,
        (#[trigger] after[j]).0,
    ) by {
        if i < at {
            assert(after[i] == pairs[i]);
            if j == at {
            } else if j < at {
                assert(after[j] == pairs[j]);
            } else {
                assert(after[j] == pairs[j - 1]);
                if at < pairs.len() {
                    lemma_lex_lt_transitive(pairs[i].0, key, pairs[j - 1].0);
                }
            }
        } else if i == at {
            assert(after[j] == pairs[j - 1]);
        } else {
            assert(after[i] == pairs[i - 1]);
            assert(after[j] == pairs[j - 1]);
        }
    }
    assert forall|i: int| 0 <= i < after.len() implies (#[trigger] after[i]).0.len()
        == KEY_LENGTH by {
        if i < at {
            assert(after[i] == pairs[i]);
        } else if i > at {
            assert(after[i] == pairs[i - 1]);
        }
    }
    if has_key(pairs, key) {
        let i = place_of(pairs, key);
        lemma_lex_lt_asymmetric(key, key);
        if i < at {
            assert(lex_lt(pairs[i].0, key));
        } else {
            assert(lex_lt(key, pairs[i].0));
        }
    }
    let wanted = as_map(pairs).insert(key, value);
    assert forall|k: Seq<u8>| as_map(after).contains_key(k) <==> wanted.contains_key(k) by {
        if has_key(after, k) {
            let i = place_of(after, k);
            if i < at {
                assert(pairs[i].0 == k);
            } else if i > at {
                assert(pairs[i - 1].0 == k);
            }
        }
        if has_key(pairs, k) {
            let i = place_of(pairs, k);
            if i < at {
                assert(after[i].0 == k);
            } else {
                assert(after[i + 1].0 == k);
            }
        }
        assert(after[at].0 == key);
    }
    assert forall|k: Seq<u8>| as_map(after).contains_key(k) implies as_map(after)[k]
        == wanted[k] by {
        let i = place_of(after, k);
        lemma_entry_is_mapped(after, i);
        if i < at {
            assert(after[i] == pairs[i]);
            lemma_entry_is_mapped(pairs, i);
        } else if i > at {
            assert(after[i] == pairs[i - 1]);
            lemma_entry_is_mapped(pairs, i - 1);
        }
    }
    assert(as_map(after) =~= wanted);
}

/// One entry of the map.
#[derive(Debug, PartialEq, Eq)]
pub struct Entry<V> {
    pub key: [u8; 96],
    pub value: V,
}

/// An ordered map from 96-byte keys to values of type `V`.
#[derive(Debug, PartialEq, Eq)]
pub struct KeyMap<V> {
    entries: Vec<Entry<V>>,
}

impl<V> View for KeyMap<V> {
    type V = Map<Seq<u8>, V>;

    open spec fn view(&self) -> Map<Seq<u8>, V> {
        as_map(self.pairs())
    }
}

impl<V> KeyMap<V> {
    /// The entries of the map, in the order in which the map is walked.
    pub closed spec fn pairs(&self) -> Seq<(Seq<u8>, V)> {
        self.entries@.map_values(|e: Entry<V>| (e.key@, e.value))
    }

    /// The invariant of the map: keys ascend strictly, so none occurs twice.
    pub open spec fn wf(&self) -> bool {
        ascending(self.pairs())
    }

    /// A map without entries.
    pub fn new() -> (map: KeyMap<V>)
        ensures
            map.wf(),
            map.pairs() == Seq::<(Seq<u8>, V)>::empty(),
            map@ == Map::<Seq<u8>, V>::empty(),
    {
        let map = KeyMap { entries: Vec::new() };
        assert(map.pairs() =~= Seq::<(Seq<u8>, V)>::empty());
        assert(map@ =~= Map::<Seq<u8>, V>::empty());
        map
    }

    /// Number of entries.
    pub fn len(&self) -> (n: usize)
        ensures
            n == self.pairs().len(),
    {
        self.entries.len()
    }

    /// Tells whether the map has no entries.
    pub fn is_empty(&self) -> (empty: bool)
        ensures
            empty == (self.pairs().len() == 0),
    {
        self.entries.len() == 0
    }

    /// The key of the entry at place `at` of the ascending order.
    pub fn key_at(&self, at: usize) -> (key: &[u8; 96])
        requires
            at < self.pairs().len(),
        ensures
            key@ == self.pairs()[at as int].0,
    {
        &self.entries[at].key
    }

    /// The value of the entry at place `at` of the ascending order.
    pub fn value_at(&self, at: usize) -> (value: &V)
        requires
            at < self.pairs().len(),
        ensures
            *value == self.pairs()[at as int].1,
    {
        &self.entries[at].value
    }

    /// The place of the first entry whose key is not smaller than `key`.
    fn lower_bound(&self, key: &[u8; 96]) -> (at: usize)
        requires
            self.wf(),
        ensures
            is_rank(self.pairs(), key@, at as int),
    {
        let mut at: usize = 0;
        while at < self.entries.len()
            invariant
                0 <= at <= self.entries.len(),
                self.entries.len() == self.pairs().len(),
                forall|i: int| 0 <= i < at ==> lex_lt((#[trigger] self.pairs()[i]).0, key@),
            decreases self.entries.len() - at,
        {
            if !array_lt(&self.entries[at].key, key) {
                return at;
            }
            at += 1;
        }
        at
    }

    /// The value stored under `key`, if there is one.
    pub fn get(&self, key: &[u8; 96]) -> (found: Option<&V>)
        requires
            self.wf(),
        ensures
            found is Some <==> self@.contains_key(key@),
            found is Some ==> *found.unwrap() == self@[key@],
    {
        let at = self.lower_bound(key);
        if at < self.entries.len() && array_eq(&self.entries[at].key, key) {
            proof {
                lemma_entry_is_mapped(self.pairs(), at as int);
            }
            Some(&self.entries[at].value)
        } else {
            proof {
                if has_key(self.pairs(), key@) {
                    let i = place_of(self.pairs(), key@);
                    lemma_lex_lt_asymmetric(key@, key@);
                    if i < at {
                        assert(lex_lt(self.pairs()[i].0, key@));
                    } else if i > at {
                        assert(lex_lt(self.pairs()[at as int].0, self.pairs()[i].0));
                    } else {
                        assert(self.entries[at as int].key@ == key@);
                    }
                }
            }
            None
        }
    }

    /// Tells whether a value is stored under `key`.
    pub fn contains_key(&self, key: &[u8; 96]) -> (present: bool)
        requires
            self.wf(),
        ensures
            present == self@.contains_key(key@),
    {
        self.get(key).is_some()
    }

    /// Stores `value` under `key`. A value that was stored under the same key
    /// is replaced; the other entries stay.
    pub fn insert(&mut self, key: [u8; 96], value: V)
        requires
            old(self).wf(),
        ensures
            final(self).wf(),
            final(self).pairs() == put(old(self).pairs(), key@, value),
            final(self)@ == old(self)@.insert(key@, value),
    {
        let at = self.lower_bound(&key);
        let ghost before = self.pairs();
        proof {
            lemma_rank_is(before, key@, at as int);
            lemma_put(before, key@, value);
        }
        if at < self.entries.len() && array_eq(&self.entries[at].key, &key) {
            self.entries[at] = Entry { key, value };
            assert(self.pairs() =~= before.update(at as int, (key@, value)));
        } else {
            self.entries.insert(at, Entry { key, value });
            assert(self.pairs() =~= before.insert(at as int, (key@, value)));
        }
    }
}

} // verus!
