use vstd::prelude::*;
use crate::text::str_equal;

verus! {

/// The position of the first entry of `entries`, at or after `from`, whose
/// key is `key`.
pub open spec fn position_from<V>(entries: Seq<(Seq<char>, V)>, key: Seq<char>, from: int) -> Option<int>
    decreases entries.len() - from,
{
    if from < 0 || from >= entries.len() {
        None
    } else if entries[from].0 == key {
        Some(from)
    } else {
        position_from(entries, key, from + 1)
    }
}

/// The position of the first entry whose key is `key`.
pub open spec fn position<V>(entries: Seq<(Seq<char>, V)>, key: Seq<char>) -> Option<int> {
    position_from(entries, key, 0)
}

/// The value of the first entry whose key is `key`.
pub open spec fn value_of<V>(entries: Seq<(Seq<char>, V)>, key: Seq<char>) -> Option<V> {
    match position(entries, key) {
        Some(i) => Some(entries[i].1),
        None => None,
    }
}

/// `entries` with `value` under `key`: in the place of the first entry with
/// that key, or at the end where there is none.
pub open spec fn with_entry<V>(entries: Seq<(Seq<char>, V)>, key: Seq<char>, value: V) -> Seq<(Seq<char>, V)> {
    match position(entries, key) {
        Some(i) => entries.update(i, (key, value)),
        None => entries.push((key, value)),
    }
}

/// No two entries share a key.
pub open spec fn distinct_keys<V>(entries: Seq<(Seq<char>, V)>) -> bool {
    forall|i: int, j: int| 0 <= i < j < entries.len() ==> entries[i].0 != entries[j].0
}

/// What `position_from` finds is the first entry with the key at or after
/// `from`; it finds none exactly where no such entry exists.
pub proof fn lemma_position_from<V>(entries: Seq<(Seq<char>, V)>, key: Seq<char>, from: int)
    requires
        0 <= from,
    ensures
        match position_from(entries, key, from) {
            Some(i) => from <= i < entries.len() && entries[i].0 == key && forall|j: int|
                from <= j < i ==> entries[j].0 != key,
            None => forall|j: int| from <= j < entries.len() ==> entries[j].0 != key,
        },
    decreases entries.len() - from,
{
    if from < entries.len() && entries[from].0 != key {
        lemma_position_from(entries, key, from + 1);
    }
}

/// An entry with the key at `i`, and none before it, makes `i` the position
/// of the key.
pub proof fn lemma_position_is<V>(entries: Seq<(Seq<char>, V)>, key: Seq<char>, i: int)
    requires
        0 <= i < entries.len(),
        entries[i].0 == key,
        forall|j: int| 0 <= j < i ==> entries[j].0 != key,
    ensures
        position(entries, key) == Some(i),
{
    lemma_position_from(entries, key, 0);
}

/// Putting a value under a key keeps the keys distinct.
pub proof fn lemma_with_entry_distinct<V>(entries: Seq<(Seq<char>, V)>, key: Seq<char>, value: V)
    requires
        distinct_keys(entries),
    ensures
        distinct_keys(with_entry(entries, key, value)),
{
    lemma_position_from(entries, key, 0);
}

/// After putting a value under a key, that key holds the value and every
/// other key holds what it held.
pub proof fn lemma_with_entry_value<V>(entries: Seq<(Seq<char>, V)>, key: Seq<char>, value: V, other: Seq<char>)
    ensures
        value_of(with_entry(entries, key, value), other) == if other == key {
            Some(value)
        } else {
            value_of(entries, other)
        },
{
    let after = with_entry(entries, key, value);
    lemma_position_from(entries, key, 0);
    lemma_position_from(entries, other, 0);
    lemma_position_from(after, other, 0);
    assert forall|j: int| 0 <= j < entries.len() implies #[trigger] after[j].0 == entries[j].0 by {}
    match position(entries, other) {
        Some(k) => {
            assert(after[k].0 == other);
            assert forall|j: int| 0 <= j < k implies after[j].0 != other by {
                assert(after[j].0 == entries[j].0);
            }
            lemma_position_is(after, other, k);
        },
        None => {
            if other == key {
                let last = entries.len() as int;
                assert(after[last] == (key, value));
                assert forall|j: int| 0 <= j < last implies after[j].0 != other by {
                    assert(after[j].0 == entries[j].0);
                }
                lemma_position_is(after, other, last);
            } else {
                assert forall|j: int| 0 <= j < after.len() implies after[j].0 != other by {
                    if j < entries.len() {
                        assert(after[j].0 == entries[j].0);
                    }
                }
            }
        },
    }
}

/// Two lists hold the same keys at the same places.
pub open spec fn same_keys<V, W>(a: Seq<(Seq<char>, V)>, b: Seq<(Seq<char>, W)>) -> bool {
    a.len() == b.len() && forall|i: int| 0 <= i < a.len() ==> a[i].0 == b[i].0
}

/// Two lists with the same keys hold each key at the same position.
pub proof fn lemma_same_keys_position<V, W>(a: Seq<(Seq<char>, V)>, b: Seq<(Seq<char>, W)>, key: Seq<char>)
    requires
        same_keys(a, b),
    ensures
        position(a, key) == position(b, key),
{
    lemma_position_from(a, key, 0);
    lemma_position_from(b, key, 0);
    match position(a, key) {
        Some(i) => {
            assert(b[i].0 == key);
            assert forall|j: int| 0 <= j < i implies b[j].0 != key by {
                assert(a[j].0 == b[j].0);
            }
            lemma_position_is(b, key, i);
        },
        None => {
            assert forall|j: int| 0 <= j < b.len() implies b[j].0 != key by {
                assert(a[j].0 == b[j].0);
            }
        },
    }
}

/// The entries of a vector, each key by its characters.
pub open spec fn keyed<V>(entries: Seq<(String, V)>) -> Seq<(Seq<char>, V)> {
    Seq::new(entries.len(), |i: int| (entries[i].0@, entries[i].1))
}

/// A list of entries under text keys, in the order in which the keys first
/// came. No key occurs twice.
#[derive(Debug)]
pub struct Dict<V> {
    entries: Vec<(String, V)>,
}

impl<V> Dict<V> {
    /// The entries, each key by its characters.
    pub closed spec fn view(&self) -> Seq<(Seq<char>, V)> {
        keyed(self.entries@)
    }

    #[verifier::type_invariant]
    spec fn keys_once(&self) -> bool {
        distinct_keys(keyed(self.entries@))
    }

    /// A list without entries.
    pub fn new() -> (d: Self)
        ensures
            d@ == Seq::<(Seq<char>, V)>::empty(),
    {
        let d = Dict { entries: Vec::new() };
        assert(d@ =~= Seq::<(Seq<char>, V)>::empty());
        d
    }

    /// The list that holds the given entries in their order.
    pub(crate) fn from_entries(entries: Vec<(String, V)>) -> (d: Self)
        requires
            distinct_keys(keyed(entries@)),
        ensures
            d@ == keyed(entries@),
    {
        Dict { entries }
    }

    /// The number of entries. Each stands under a key of its own.
    pub fn len(&self) -> (n: usize)
        ensures
            n == self@.len(),
            distinct_keys(self@),
    {
        proof {
            use_type_invariant(self);
        }
        self.entries.len()
    }

    /// The key of the entry at `i`.
    pub fn key_at(&self, i: usize) -> (key: &String)
        requires
            i < self@.len(),
        ensures
            key@ == self@[i as int].0,
    {
        &self.entries[i].0
    }

    /// The value of the entry at `i`.
    pub fn value_at(&self, i: usize) -> (value: &V)
        requires
            i < self@.len(),
        ensures
            *value == self@[i as int].1,
    {
        &self.entries[i].1
    }

    /// The position of the entry under `key`.
    pub fn find(&self, key: &str) -> (found: Option<usize>)
        ensures
            match found {
                Some(i) => position(self@, key@) == Some(i as int) && i < self@.len(),
                None => position(self@, key@) is None,
            },
    {
        let mut i: usize = 0;
        while i < self.entries.len()
            invariant
                i <= self.entries@.len(),
                position(self@, key@) == position_from(self@, key@, i as int),
            decreases self.entries@.len() - i,
        {
            if str_equal(self.entries[i].0.as_str(), key) {
                return Some(i);
            }
            i += 1;
        }
        None
    }

    /// The value under `key`.
    pub fn get(&self, key: &str) -> (found: Option<&V>)
        ensures
            match found {
                Some(v) => value_of(self@, key@) == Some(*v),
                None => value_of(self@, key@) is None,
            },
    {
        match self.find(key) {
            Some(i) => Some(&self.entries[i].1),
            None => None,
        }
    }

    /// Puts `value` in the place of the value of the entry at `i`.
    pub fn set_value_at(&mut self, i: usize, value: V)
        requires
            i < old(self)@.len(),
        ensures
            final(self)@ == old(self)@.update(i as int, (old(self)@[i as int].0, value)),
    {
        proof {
            use_type_invariant(&*self);
        }
        let key = self.entries[i].0.clone();
        let mut entries: Vec<(String, V)> = Vec::new();
        core::mem::swap(&mut self.entries, &mut entries);
        let ghost before = keyed(entries@);
        entries.set(i, (key, value));
        assert(keyed(entries@) =~= before.update(i as int, (before[i as int].0, value)));
        self.entries = entries;
    }

    /// Puts `value` under `key`, in the place of the value that the key
    /// held, if it held one.
    pub fn insert(&mut self, key: String, value: V)
        ensures
            final(self)@ == with_entry(old(self)@, key@, value),
    {
        proof {
            use_type_invariant(&*self);
            lemma_with_entry_distinct(self@, key@, value);
        }
        let found = self.find(key.as_str());
        let mut entries: Vec<(String, V)> = Vec::new();
        core::mem::swap(&mut self.entries, &mut entries);
        let ghost before = keyed(entries@);
        match found {
            Some(i) => {
                entries.set(i, (key, value));
            },
            None => {
                entries.push((key, value));
            },
        }
        assert(keyed(entries@) =~= with_entry(before, key@, value));
        self.entries = entries;
    }
}

} // verus!
