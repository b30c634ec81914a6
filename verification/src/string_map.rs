//! A small text-to-text mapping that remembers the order in which its keys
//! were first inserted.
//!
//! It holds header fields and form parameters. Lookup is by exact key; a
//! second insertion under a key replaces the value and keeps the key's place.

use vstd::prelude::*;

verus! {

/// The model of a mapping: its entries, key then value, in insertion order.
pub type Entries = Seq<(Seq<char>, Seq<char>)>;

/// The index of the first entry at or after `from` whose key is `key`, or the
/// number of entries if there is none.
pub open spec fn position_from(entries: Entries, key: Seq<char>, from: int) -> int
    decreases entries.len() - from,
{
    if from < 0 || from >= entries.len() {
        entries.len() as int
    } else if entries[from].0 == key {
        from
    } else {
        position_from(entries, key, from + 1)
    }
}

/// The index of the first entry whose key is `key`, or the number of entries
/// if there is none.
pub open spec fn position(entries: Entries, key: Seq<char>) -> int {
    position_from(entries, key, 0)
}

/// The value stored under `key`.
pub open spec fn lookup(entries: Entries, key: Seq<char>) -> Option<Seq<char>> {
    let i = position(entries, key);
    if i < entries.len() {
        Some(entries[i].1)
    } else {
        None
    }
}

/// The entries after storing `value` under `key`: an existing entry for the
/// key has its value replaced where it stands, a new key goes to the end.
pub open spec fn put(entries: Entries, key: Seq<char>, value: Seq<char>) -> Entries {
    let i = position(entries, key);
    if i < entries.len() {
        entries.update(i, (key, value))
    } else {
        entries.push((key, value))
    }
}

/// No key occurs in two entries.
pub open spec fn distinct_keys(entries: Entries) -> bool {
    forall|i: int, j: int|
        0 <= i < j < entries.len() ==> (#[trigger] entries[i]).0 != (#[trigger] entries[j]).0
}

/// The entries as a mathematical map.
pub open spec fn as_map(entries: Entries) -> Map<Seq<char>, Seq<char>> {
    Map::new(|k: Seq<char>| lookup(entries, k) is Some, |k: Seq<char>| lookup(entries, k)->0)
}

/// What `position_from` finds: the first entry with the key at or after
/// `from`, and no such entry before it.
pub proof fn lemma_position_from(entries: Entries, key: Seq<char>, from: int)
    requires
        0 <= from <= entries.len(),
    ensures
        from <= position_from(entries, key, from) <= entries.len(),
        position_from(entries, key, from) < entries.len() ==> entries[position_from(
            entries,
            key,
            from,
        )].0 == key,
        forall|j: int| from <= j < position_from(entries, key, from) ==> entries[j].0 != key,
    decreases entries.len() - from,
{
    if from < entries.len() && entries[from].0 != key {
        lemma_position_from(entries, key, from + 1);
    }
}

/// An index that holds the key, with no earlier one that does, is the key's
/// position.
pub proof fn lemma_position_is(entries: Entries, key: Seq<char>, i: int)
    requires
        0 <= i <= entries.len(),
        i < entries.len() ==> entries[i].0 == key,
        forall|j: int| 0 <= j < i ==> entries[j].0 != key,
    ensures
        position(entries, key) == i,
{
    lemma_position_from(entries, key, 0);
}

/// Storing a value keeps the keys distinct, makes the key map to the value
/// and leaves every other key as it was.
pub proof fn lemma_put(entries: Entries, key: Seq<char>, value: Seq<char>)
    ensures
        lookup(put(entries, key, value), key) == Some(value),
        forall|other: Seq<char>|
            other != key ==> lookup(#[trigger] put(entries, key, value), other) == lookup(
                entries,
                other,
            ),
        distinct_keys(entries) ==> distinct_keys(put(entries, key, value)),
        as_map(put(entries, key, value)) == as_map(entries).insert(key, value),
        put(entries, key, value).len() == if lookup(entries, key) is Some {
            entries.len()
        } else {
            entries.len() + 1
        },
{
    let after = put(entries, key, value);
    let i = position(entries, key);
    lemma_position_from(entries, key, 0);
    lemma_position_is(after, key, i);
    assert forall|other: Seq<char>| other != key implies lookup(after, other) == lookup(
        entries,
        other,
    ) by {
        let j = position(entries, other);
        lemma_position_from(entries, other, 0);
        lemma_position_is(after, other, if j < entries.len() {
            j
        } else {
            after.len() as int
        });
    }
    assert(as_map(after) =~= as_map(entries).insert(key, value));
}

/// Storing three values under three different keys, starting from nothing,
/// gives the three entries in that order, and each key finds its value.
pub proof fn lemma_put_three(
    k1: Seq<char>,
    v1: Seq<char>,
    k2: Seq<char>,
    v2: Seq<char>,
    k3: Seq<char>,
    v3: Seq<char>,
)
    requires
        k1 != k2,
        k1 != k3,
        k2 != k3,
    ensures
        put(put(put(Entries::empty(), k1, v1), k2, v2), k3, v3) == seq![(k1, v1), (k2, v2), (k3, v3)],
        lookup(seq![(k1, v1), (k2, v2), (k3, v3)], k1) == Some(v1),
        lookup(seq![(k1, v1), (k2, v2), (k3, v3)], k2) == Some(v2),
        lookup(seq![(k1, v1), (k2, v2), (k3, v3)], k3) == Some(v3),
{
    let first = seq![(k1, v1)];
    let second = first.push((k2, v2));
    let third = second.push((k3, v3));
    lemma_position_is(Entries::empty(), k1, 0);
    assert(put(Entries::empty(), k1, v1) =~= first);
    lemma_position_is(first, k2, 1);
    assert(put(first, k2, v2) =~= second);
    lemma_position_is(second, k3, 2);
    assert(put(second, k3, v3) =~= third);
    assert(third =~= seq![(k1, v1), (k2, v2), (k3, v3)]);
    lemma_position_is(third, k1, 0);
    lemma_position_is(third, k2, 1);
    lemma_position_is(third, k3, 2);
}

/// An insertion-ordered mapping from text to text.
#[derive(Debug)]
pub struct StringMap {
    entries: Vec<(String, String)>,
}

impl View for StringMap {
    type V = Map<Seq<char>, Seq<char>>;

    /// The mapping as a mathematical map.
    open spec fn view(&self) -> Map<Seq<char>, Seq<char>> {
        as_map(self.entries())
    }
}

impl StringMap {
    /// The entries in insertion order.
    pub closed spec fn entries(&self) -> Entries {
        self.entries@.map_values(|e: (String, String)| (e.0@, e.1@))
    }

    /// The invariant of the type: no key occurs in two entries.
    #[verifier::type_invariant]
    pub open spec fn keys_are_distinct(&self) -> bool {
        distinct_keys(self.entries())
    }

    /// The empty mapping.
    pub fn new() -> (map: Self)
        ensures
            map.entries() == Entries::empty(),
    {
        let map = StringMap { entries: Vec::new() };
        assert(map.entries() =~= Entries::empty());
        map
    }

    /// The number of entries.
    pub fn len(&self) -> (n: usize)
        ensures
            n == self.entries().len(),
    {
        self.entries.len()
    }

    /// Whether the mapping has no entry.
    pub fn is_empty(&self) -> (b: bool)
        ensures
            b == (self.entries().len() == 0),
    {
        self.entries.len() == 0
    }

    /// The key of the `i`-th entry.
    pub fn key_at(&self, i: usize) -> (key: &String)
        requires
            i < self.entries().len(),
        ensures
            key@ == self.entries()[i as int].0,
    {
        &self.entries[i].0
    }

    /// The value of the `i`-th entry.
    pub fn value_at(&self, i: usize) -> (value: &String)
        requires
            i < self.entries().len(),
        ensures
            value@ == self.entries()[i as int].1,
    {
        &self.entries[i].1
    }

    /// The index of the entry for `key`, or `len()` if there is none.
    fn find(&self, key: &String) -> (i: usize)
        ensures
            i == position(self.entries(), key@),
            i <= self.entries().len(),
    {
        let mut i: usize = 0;
        while i < self.entries.len()
            invariant
                i <= self.entries.len(),
                forall|j: int| 0 <= j < i ==> self.entries()[j].0 != key@,
            decreases self.entries.len() - i,
        {
            if self.entries[i].0 == *key {
                proof {
                    lemma_position_is(self.entries(), key@, i as int);
                }
                return i;
            }
            i += 1;
        }
        proof {
            lemma_position_is(self.entries(), key@, i as int);
        }
        i
    }

    /// The value stored under `key`, if any.
    pub fn get(&self, key: &str) -> (value: Option<&String>)
        ensures
            match value {
                Some(v) => lookup(self.entries(), key@) == Some(v@),
                None => lookup(self.entries(), key@) is None,
            },
    {
        let probe = key.to_owned();
        let i = self.find(&probe);
        if i < self.entries.len() {
            Some(&self.entries[i].1)
        } else {
            None
        }
    }

    /// Whether a value is stored under `key`.
    pub fn contains_key(&self, key: &str) -> (b: bool)
        ensures
            b == self@.contains_key(key@),
            b == (lookup(self.entries(), key@) is Some),
    {
        let probe = key.to_owned();
        let i = self.find(&probe);
        i < self.entries.len()
    }

    /// Stores `value` under `key`. A value already stored under the key is
    /// replaced.
    pub fn insert(&mut self, key: String, value: String)
        ensures
            final(self).entries() == put(old(self).entries(), key@, value@),
            final(self)@ == old(self)@.insert(key@, value@),
    {
        proof {
            use_type_invariant(&*self);
            lemma_put(self.entries(), key@, value@);
        }
        let i = self.find(&key);
        let ghost before = self.entries();
        let mut taken = StringMap::new();
        std::mem::swap(self, &mut taken);
        let mut entries = taken.entries;
        if i < entries.len() {
            entries.set(i, (key, value));
        } else {
            entries.push((key, value));
        }
        assert(entries@.map_values(|e: (String, String)| (e.0@, e.1@)) =~= put(
            before,
            key@,
            value@,
        ));
        *self = StringMap { entries };
    }
}

} // verus!
