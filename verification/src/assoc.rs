//! A small map keyed by strings, kept as a list of pairs in insertion order.
//!
//! The hash maps of the standard library cannot be reasoned about with string
//! keys, so the gateway keeps its name-indexed tables in this type. Its
//! invariant is that no key occurs twice; its model is a mathematical map.

use vstd::prelude::*;

verus! {

/// A finite map from strings to `V` that remembers insertion order.
#[derive(Debug)]
pub struct StrMap<V> {
    entries: Vec<(String, V)>,
}

/// In a sequence without duplicates, every position is found again by its item.
proof fn lemma_index_of_unique<A>(s: Seq<A>, i: int)
    requires
        s.no_duplicates(),
        0 <= i < s.len(),
    ensures
        s.contains(s[i]),
        s.index_of(s[i]) == i,
{
    assert(s.contains(s[i]));
    let j = s.index_of(s[i]);
    assert(0 <= j < s.len() && s[j] == s[i]);
}

/// An item that a sequence contains stands at the position that `index_of` gives.
proof fn lemma_index_of_contained<A>(s: Seq<A>, k: A)
    requires
        s.contains(k),
    ensures
        0 <= s.index_of(k) < s.len(),
        s[s.index_of(k)] == k,
{
}

/// Taking one item out of a sequence without duplicates leaves none.
proof fn lemma_remove_keeps_unique<A>(s: Seq<A>, i: int)
    requires
        s.no_duplicates(),
        0 <= i < s.len(),
    ensures
        s.remove(i).no_duplicates(),
{
    let r = s.remove(i);
    assert forall|a: int, b: int| 0 <= a < r.len() && 0 <= b < r.len() && a != b implies r[a]
        != r[b] by {
        let a0 = if a < i { a } else { a + 1 };
        let b0 = if b < i { b } else { b + 1 };
        assert(r[a] == s[a0]);
        assert(r[b] == s[b0]);
    }
}

/// The keys of a list of pairs, in order.
pub open spec fn keys_of<V>(s: Seq<(String, V)>) -> Seq<Seq<char>> {
    Seq::new(s.len(), |i: int| s[i].0@)
}

/// The values of a list of pairs, in order.
pub open spec fn values_of<V>(s: Seq<(String, V)>) -> Seq<V> {
    Seq::new(s.len(), |i: int| s[i].1)
}

/// The map that sends each key to the value at the key's position.
pub open spec fn map_of<V>(keys: Seq<Seq<char>>, values: Seq<V>) -> Map<Seq<char>, V> {
    Map::new(|k: Seq<char>| keys.contains(k), |k: Seq<char>| values[keys.index_of(k)])
}

proof fn lemma_map_of<V>(s: Seq<(String, V)>)
    requires
        keys_of(s).no_duplicates(),
    ensures
        forall|i: int|
            0 <= i < s.len() ==> map_of(keys_of(s), values_of(s)).contains_key(
                #[trigger] keys_of(s)[i],
            ) && map_of(keys_of(s), values_of(s))[keys_of(s)[i]] == s[i].1,
{
    let keys = keys_of(s);
    assert forall|i: int| 0 <= i < s.len() implies map_of(keys, values_of(s)).contains_key(
        #[trigger] keys[i],
    ) && map_of(keys, values_of(s))[keys[i]] == s[i].1 by {
        lemma_index_of_unique(keys, i);
    }
}

proof fn lemma_replace<V>(s: Seq<(String, V)>, i: int, pair: (String, V))
    requires
        keys_of(s).no_duplicates(),
        0 <= i < s.len(),
        pair.0@ == s[i].0@,
    ensures
        keys_of(s.update(i, pair)) == keys_of(s),
        map_of(keys_of(s.update(i, pair)), values_of(s.update(i, pair))) == map_of(
            keys_of(s),
            values_of(s),
        ).insert(pair.0@, pair.1),
{
    let t = s.update(i, pair);
    assert(keys_of(t) =~= keys_of(s));
    lemma_map_of(s);
    lemma_map_of(t);
    let m = map_of(keys_of(s), values_of(s)).insert(pair.0@, pair.1);
    let n = map_of(keys_of(t), values_of(t));
    assert forall|k: Seq<char>| n.contains_key(k) implies #[trigger] m.contains_key(k) && n[k]
        == m[k] by {
        assert(keys_of(t).contains(k));
        lemma_index_of_contained(keys_of(t), k);
        let j = keys_of(t).index_of(k);
        assert(keys_of(s)[j] == k);
        lemma_index_of_unique(keys_of(s), j);
        assert(keys_of(s)[i] == pair.0@);
        assert(n[k] == values_of(t)[j]);
        if j == i {
            assert(t[i] == pair);
        } else {
            assert(t[j] == s[j]);
            assert(k != pair.0@);
        }
    }
    assert forall|k: Seq<char>| m.contains_key(k) implies #[trigger] n.contains_key(k) by {
        if k == pair.0@ {
            assert(keys_of(t)[i] == k);
        }
    }
    assert(n =~= m);
}

proof fn lemma_push<V>(s: Seq<(String, V)>, pair: (String, V))
    requires
        keys_of(s).no_duplicates(),
        !keys_of(s).contains(pair.0@),
    ensures
        keys_of(s.push(pair)) == keys_of(s).push(pair.0@),
        keys_of(s.push(pair)).no_duplicates(),
        map_of(keys_of(s.push(pair)), values_of(s.push(pair))) == map_of(
            keys_of(s),
            values_of(s),
        ).insert(pair.0@, pair.1),
{
    let t = s.push(pair);
    let keys = keys_of(s);
    let grown = keys_of(t);
    assert(grown =~= keys.push(pair.0@));
    assert forall|a: int, b: int|
        0 <= a < grown.len() && 0 <= b < grown.len() && a != b implies grown[a] != grown[b] by {
        if a < keys.len() {
            assert(keys.contains(keys[a]));
        }
        if b < keys.len() {
            assert(keys.contains(keys[b]));
        }
    }
    lemma_map_of(s);
    lemma_map_of(t);
    let m = map_of(keys, values_of(s)).insert(pair.0@, pair.1);
    let n = map_of(grown, values_of(t));
    assert forall|k: Seq<char>| n.contains_key(k) implies #[trigger] m.contains_key(k) && n[k]
        == m[k] by {
        assert(grown.contains(k));
        lemma_index_of_contained(grown, k);
        let j = grown.index_of(k);
        if j < keys.len() {
            assert(keys[j] == k);
            lemma_index_of_unique(keys, j);
        }
    }
    assert forall|k: Seq<char>| m.contains_key(k) implies #[trigger] n.contains_key(k) by {
        if k == pair.0@ {
            assert(grown[keys.len() as int] == k);
        } else {
            assert(keys.contains(k));
            lemma_index_of_contained(keys, k);
            let j = keys.index_of(k);
            assert(grown[j] == k);
        }
    }
    assert(n =~= m);
}

proof fn lemma_remove<V>(s: Seq<(String, V)>, i: int)
    requires
        keys_of(s).no_duplicates(),
        0 <= i < s.len(),
    ensures
        keys_of(s.remove(i)) == keys_of(s).remove(i),
        keys_of(s.remove(i)).no_duplicates(),
        map_of(keys_of(s.remove(i)), values_of(s.remove(i))) == map_of(
            keys_of(s),
            values_of(s),
        ).remove(s[i].0@),
        map_of(keys_of(s), values_of(s)).contains_key(s[i].0@),
        map_of(keys_of(s), values_of(s))[s[i].0@] == s[i].1,
{
    let t = s.remove(i);
    let keys = keys_of(s);
    let rest = keys_of(t);
    assert(rest =~= keys.remove(i));
    lemma_remove_keeps_unique(keys, i);
    lemma_map_of(s);
    lemma_map_of(t);
    assert(keys[i] == s[i].0@);
    let m = map_of(keys, values_of(s)).remove(s[i].0@);
    let n = map_of(rest, values_of(t));
    assert forall|k: Seq<char>| n.contains_key(k) implies #[trigger] m.contains_key(k) && n[k]
        == m[k] by {
        assert(rest.contains(k));
        lemma_index_of_contained(rest, k);
        let j = rest.index_of(k);
        let orig = if j < i { j } else { j + 1 };
        assert(keys[orig] == k);
        assert(t[j] == s[orig]);
        lemma_index_of_unique(keys, orig);
    }
    assert forall|k: Seq<char>| m.contains_key(k) implies #[trigger] n.contains_key(k) by {
        assert(keys.contains(k));
        lemma_index_of_contained(keys, k);
        let j = keys.index_of(k);
        let moved = if j < i { j } else { j - 1 };
        assert(rest[moved] == k);
    }
    assert(n =~= m);
}

impl<V> StrMap<V> {
    #[verifier::type_invariant]
    spec fn distinct(self) -> bool {
        keys_of(self.entries@).no_duplicates()
    }

    /// The keys, in the order in which they were first inserted.
    pub closed spec fn key_seq(self) -> Seq<Seq<char>> {
        keys_of(self.entries@)
    }

    /// The values, each at the position of its key in [`Self::key_seq`].
    pub closed spec fn value_seq(self) -> Seq<V> {
        values_of(self.entries@)
    }

    /// The map that this table stands for.
    pub open spec fn map(self) -> Map<Seq<char>, V> {
        map_of(self.key_seq(), self.value_seq())
    }

    /// The entries, in the order in which their keys were first inserted.
    pub open spec fn pairs(self) -> Seq<(Seq<char>, V)> {
        Seq::new(self.key_seq().len(), |i: int| (self.key_seq()[i], self.value_seq()[i]))
    }

    /// What every table in executable code satisfies: keys and values line up,
    /// no key occurs twice, and the map has one entry per position.
    pub open spec fn well_formed(self) -> bool {
        &&& self.key_seq().len() == self.value_seq().len()
        &&& self.key_seq().no_duplicates()
        &&& self.map().dom().finite()
        &&& self.map().dom() == self.key_seq().to_set()
        &&& self.map().len() == self.key_seq().len()
        &&& forall|i: int|
            0 <= i < self.key_seq().len() ==> self.map().contains_key(#[trigger] self.key_seq()[i])
                && self.map()[self.key_seq()[i]] == self.value_seq()[i]
    }

    proof fn lemma_well_formed(self)
        requires
            self.distinct(),
        ensures
            self.well_formed(),
    {
        let keys = self.key_seq();
        assert(self.map().dom() =~= keys.to_set());
        vstd::seq_lib::seq_to_set_is_finite(keys);
        keys.unique_seq_to_set();
        assert forall|i: int| 0 <= i < keys.len() implies self.map().contains_key(
            #[trigger] keys[i],
        ) && self.map()[keys[i]] == self.value_seq()[i] by {
            lemma_index_of_unique(keys, i);
        }
    }

    /// An empty table.
    pub fn new() -> (r: Self)
        ensures
            r.map() == Map::<Seq<char>, V>::empty(),
            r.key_seq() == Seq::<Seq<char>>::empty(),
            r.well_formed(),
    {
        let r = StrMap { entries: Vec::new() };
        proof {
            assert(r.key_seq() =~= Seq::<Seq<char>>::empty());
            assert(r.map() =~= Map::<Seq<char>, V>::empty());
            r.lemma_well_formed();
        }
        r
    }

    /// The number of entries. The call also hands the caller the facts that
    /// hold of every table.
    pub fn len(&self) -> (n: usize)
        ensures
            n == self.map().len(),
            n == self.key_seq().len(),
            self.well_formed(),
    {
        proof {
            use_type_invariant(self);
            self.lemma_well_formed();
        }
        self.entries.len()
    }

    /// Whether the table has no entry.
    pub fn is_empty(&self) -> (r: bool)
        ensures
            r == (self.map() == Map::<Seq<char>, V>::empty()),
            r == (self.key_seq().len() == 0),
    {
        proof {
            use_type_invariant(self);
            self.lemma_well_formed();
            if self.key_seq().len() == 0 {
                assert(self.map() =~= Map::<Seq<char>, V>::empty());
            } else {
                assert(self.map().contains_key(self.key_seq()[0]));
            }
        }
        self.entries.len() == 0
    }

    fn position(&self, key: &str) -> (r: Option<usize>)
        ensures
            match r {
                Some(i) => i < self.key_seq().len() && self.key_seq()[i as int] == key@,
                None => !self.key_seq().contains(key@),
            },
    {
        let wanted = key.to_owned();
        let mut i: usize = 0;
        while i < self.entries.len()
            invariant
                i <= self.entries.len(),
                wanted@ == key@,
                forall|j: int| 0 <= j < i ==> self.key_seq()[j] != key@,
            decreases self.entries.len() - i,
        {
            if self.entries[i].0 == wanted {
                return Some(i);
            }
            i += 1;
        }
        None
    }

    /// Whether `key` has an entry.
    pub fn contains_key(&self, key: &str) -> (r: bool)
        ensures
            r == self.map().contains_key(key@),
    {
        self.position(key).is_some()
    }

    /// The value stored under `key`, if there is one.
    pub fn get(&self, key: &str) -> (r: Option<&V>)
        ensures
            r == (if self.map().contains_key(key@) {
                Some(&self.map()[key@])
            } else {
                None
            }),
    {
        match self.position(key) {
            Some(i) => {
                proof {
                    use_type_invariant(self);
                    lemma_index_of_unique(self.key_seq(), i as int);
                }
                Some(&self.entries[i].1)
            },
            None => None,
        }
    }

    /// The entry at position `i` of the insertion order, where there is one.
    pub fn entry_at(&self, i: usize) -> (r: Option<(&String, &V)>)
        ensures
            match r {
                Some((key, value)) => i < self.key_seq().len() && key@ == self.key_seq()[i as int]
                    && *value == self.value_seq()[i as int] && self.map().contains_key(key@)
                    && self.map()[key@] == *value,
                None => i >= self.key_seq().len(),
            },
    {
        if i < self.entries.len() {
            Some((self.key_at(i), self.value_at(i)))
        } else {
            None
        }
    }

    /// The key at position `i` of the insertion order.
    pub(crate) fn key_at(&self, i: usize) -> (r: &String)
        requires
            i < self.key_seq().len(),
        ensures
            r@ == self.key_seq()[i as int],
    {
        &self.entries[i].0
    }

    /// The value at position `i` of the insertion order.
    pub(crate) fn value_at(&self, i: usize) -> (r: &V)
        requires
            i < self.key_seq().len(),
        ensures
            *r == self.value_seq()[i as int],
            self.map().contains_key(self.key_seq()[i as int]),
            *r == self.map()[self.key_seq()[i as int]],
    {
        proof {
            use_type_invariant(self);
            lemma_index_of_unique(self.key_seq(), i as int);
        }
        &self.entries[i].1
    }

    /// Stores `value` under `key` and returns what was stored there before.
    /// A new key goes to the end of the order; a known key keeps its place.
    pub fn insert(&mut self, key: String, value: V) -> (r: Option<V>)
        ensures
            final(self).map() == old(self).map().insert(key@, value),
            r == (if old(self).map().contains_key(key@) {
                Some(old(self).map()[key@])
            } else {
                None
            }),
            final(self).key_seq() == (if old(self).map().contains_key(key@) {
                old(self).key_seq()
            } else {
                old(self).key_seq().push(key@)
            }),
    {
        proof {
            use_type_invariant(&*self);
        }
        let found = self.position(key.as_str());
        let ghost before = self.entries@;
        let ghost key_view = key@;
        let mut entries: Vec<(String, V)> = Vec::new();
        core::mem::swap(&mut self.entries, &mut entries);
        let r = match found {
            Some(i) => {
                let previous = entries.remove(i);
                entries.insert(i, (key, value));
                proof {
                    lemma_replace(before, i as int, entries@[i as int]);
                    assert(entries@ =~= before.update(i as int, entries@[i as int]));
                }
                Some(previous.1)
            },
            None => {
                entries.push((key, value));
                proof {
                    lemma_push(before, entries@.last());
                }
                None
            },
        };
        core::mem::swap(&mut self.entries, &mut entries);
        r
    }

    /// Takes the entry of `key` out and returns its value, if there was one.
    /// The other keys keep their order.
    pub fn remove(&mut self, key: &str) -> (r: Option<V>)
        ensures
            final(self).map() == old(self).map().remove(key@),
            r == (if old(self).map().contains_key(key@) {
                Some(old(self).map()[key@])
            } else {
                None
            }),
            !final(self).map().contains_key(key@),
            final(self).key_seq() == (if old(self).map().contains_key(key@) {
                old(self).key_seq().remove(old(self).key_seq().index_of(key@))
            } else {
                old(self).key_seq()
            }),
    {
        proof {
            use_type_invariant(&*self);
        }
        let found = self.position(key);
        let ghost before = self.entries@;
        match found {
            Some(i) => {
                let mut entries: Vec<(String, V)> = Vec::new();
                core::mem::swap(&mut self.entries, &mut entries);
                let previous = entries.remove(i);
                proof {
                    lemma_remove(before, i as int);
                    lemma_index_of_unique(keys_of(before), i as int);
                }
                core::mem::swap(&mut self.entries, &mut entries);
                Some(previous.1)
            },
            None => {
                proof {
                    assert(self.map() =~= self.map().remove(key@));
                }
                None
            },
        }
    }
}

impl StrMap<String> {
    /// A copy of the table, entry by entry.
    pub fn duplicate(&self) -> (r: Self)
        ensures
            r.key_seq() == self.key_seq(),
            r.value_seq() == self.value_seq(),
            r.map() == self.map(),
            r@ == self@,
    {
        proof {
            use_type_invariant(self);
        }
        let mut entries: Vec<(String, String)> = Vec::new();
        let mut i: usize = 0;
        while i < self.entries.len()
            invariant
                i <= self.entries.len(),
                entries@ == self.entries@.take(i as int),
            decreases self.entries.len() - i,
        {
            entries.push((self.entries[i].0.clone(), self.entries[i].1.clone()));
            proof {
                assert(entries@ =~= self.entries@.take(i + 1));
            }
            i += 1;
        }
        proof {
            assert(self.entries@.take(i as int) =~= self.entries@);
        }
        StrMap { entries }
    }
}

impl<V: View> View for StrMap<V> {
    type V = Map<Seq<char>, V::V>;

    /// The map with every value taken by its own view.
    open spec fn view(&self) -> Map<Seq<char>, V::V> {
        self.map().map_values(|v: V| v@)
    }
}

} // verus!
