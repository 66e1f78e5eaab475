//! Maps from text to text, kept as a list of entries with distinct keys.
//!
//! Message headers and free-form metadata are such maps. The entries stand in
//! the order in which their keys were first inserted.

use crate::text::str_eq;
use vstd::prelude::*;
use vstd::std_specs::cmp::PartialEqSpecImpl;

verus! {

/// One entry of a [`TextMap`].
#[derive(Debug, PartialEq, Eq)]
pub struct TextEntry {
    pub key: String,
    pub value: String,
}

impl View for TextEntry {
    type V = (Seq<char>, Seq<char>);

    open spec fn view(&self) -> (Seq<char>, Seq<char>) {
        (self.key@, self.value@)
    }
}

impl Clone for TextEntry {
    fn clone(&self) -> (copy: Self)
        ensures
            copy@ == self@,
    {
        TextEntry { key: self.key.clone(), value: self.value.clone() }
    }
}

/// Position of the first entry with the given key, or the number of entries
/// where no entry has it.
pub open spec fn position_of(entries: Seq<(Seq<char>, Seq<char>)>, key: Seq<char>) -> int
    decreases entries.len(),
{
    if entries.len() == 0 {
        0
    } else if entries[0].0 == key {
        0
    } else {
        1 + position_of(entries.drop_first(), key)
    }
}

/// No two entries have the same key.
pub open spec fn distinct_keys(entries: Seq<(Seq<char>, Seq<char>)>) -> bool {
    forall|i: int, j: int|
        0 <= i < j < entries.len() ==> (#[trigger] entries[i]).0 != (#[trigger] entries[j]).0
}

/// What a lookup of `key` gives.
pub open spec fn lookup(entries: Seq<(Seq<char>, Seq<char>)>, key: Seq<char>) -> Option<Seq<char>> {
    let at = position_of(entries, key);
    if at < entries.len() {
        Some(entries[at].1)
    } else {
        None
    }
}

/// The entries after `key` has been set to `value`: the entry with that key
/// is replaced where it stands, or a new entry is added at the end.
pub open spec fn with_entry(
    entries: Seq<(Seq<char>, Seq<char>)>,
    key: Seq<char>,
    value: Seq<char>,
) -> Seq<(Seq<char>, Seq<char>)> {
    let at = position_of(entries, key);
    if at < entries.len() {
        entries.update(at, (key, value))
    } else {
        entries.push((key, value))
    }
}

/// `position_of` finds the first entry with the key, and finds none only if
/// there is none.
pub proof fn lemma_position_of(entries: Seq<(Seq<char>, Seq<char>)>, key: Seq<char>)
    ensures
        0 <= position_of(entries, key) <= entries.len(),
        position_of(entries, key) < entries.len() ==> entries[position_of(entries, key)].0
            == key,
        forall|i: int| 0 <= i < position_of(entries, key) ==> (#[trigger] entries[i]).0 != key,
    decreases entries.len(),
{
    if entries.len() > 0 && entries[0].0 != key {
        let rest = entries.drop_first();
        lemma_position_of(rest, key);
        assert forall|i: int| 0 <= i < position_of(entries, key) implies (#[trigger] entries[i]).0
            != key by {
            if i > 0 {
                assert(entries[i] == rest[i - 1]);
            }
        }
    }
}

/// A key that differs from the key of every entry is not found.
pub proof fn lemma_absent(entries: Seq<(Seq<char>, Seq<char>)>, key: Seq<char>)
    requires
        forall|i: int| 0 <= i < entries.len() ==> (#[trigger] entries[i]).0 != key,
    ensures
        lookup(entries, key).is_none(),
{
    lemma_position_of(entries, key);
    let at = position_of(entries, key);
    if at < entries.len() {
        assert(entries[at].0 != key);
    }
}

/// Setting a key keeps the keys distinct.
pub proof fn lemma_with_entry_distinct(
    entries: Seq<(Seq<char>, Seq<char>)>,
    key: Seq<char>,
    value: Seq<char>,
)
    requires
        distinct_keys(entries),
    ensures
        distinct_keys(with_entry(entries, key, value)),
        lookup(with_entry(entries, key, value), key) == Some(value),
{
    lemma_position_of(entries, key);
    let after = with_entry(entries, key, value);
    lemma_position_of(after, key);
    let at = position_of(entries, key);
    assert(after[at] == (key, value));
    assert forall|i: int, j: int| 0 <= i < j < after.len() implies (#[trigger] after[i]).0 != (
    #[trigger] after[j]).0 by {
        if at < entries.len() {
            assert(entries[i].0 != entries[j].0);
        } else if j < entries.len() {
            assert(entries[i].0 != entries[j].0);
        } else {
            assert(entries[i].0 != key);
        }
    }
    if position_of(after, key) < at {
        assert(after[position_of(after, key)].0 == key);
        assert(entries[position_of(after, key)].0 != key);
    }
}

/// Under every key of the first list, the second list holds what the first
/// holds.
pub open spec fn agrees_with(
    first: Seq<(Seq<char>, Seq<char>)>,
    second: Seq<(Seq<char>, Seq<char>)>,
) -> bool {
    forall|i: int|
        0 <= i < first.len() ==> lookup(second, (#[trigger] first[i]).0) == lookup(
            first,
            first[i].0,
        )
}

/// Two lists of entries hold the same: under every key of either, both hold
/// the same. The order of the entries does not matter.
pub open spec fn same_entries(
    first: Seq<(Seq<char>, Seq<char>)>,
    second: Seq<(Seq<char>, Seq<char>)>,
) -> bool {
    agrees_with(first, second) && agrees_with(second, first)
}

/// Two lists of entries hold the same if, and only if, a lookup of any key
/// gives the same in both.
pub proof fn lemma_same_entries(
    first: Seq<(Seq<char>, Seq<char>)>,
    second: Seq<(Seq<char>, Seq<char>)>,
)
    ensures
        same_entries(first, second) == (forall|key: Seq<char>|
            lookup(first, key) == lookup(second, key)),
{
    if same_entries(first, second) {
        assert forall|key: Seq<char>| lookup(first, key) == lookup(second, key) by {
            lemma_position_of(first, key);
            lemma_position_of(second, key);
            let at = position_of(first, key);
            let found = position_of(second, key);
            if at < first.len() {
                assert(first[at].0 == key);
            } else if found < second.len() {
                assert(second[found].0 == key);
            }
        }
    }
    if forall|key: Seq<char>| lookup(first, key) == lookup(second, key) {
        assert(agrees_with(first, second));
        assert(agrees_with(second, first));
    }
}

/// A map from text to text. Two maps are equal if they hold the same
/// entries, in whatever order: if a lookup of any key gives the same in
/// both.
#[derive(Debug, Eq)]
pub struct TextMap {
    entries: Vec<TextEntry>,
}

impl PartialEq for TextMap {
    fn eq(&self, other: &Self) -> (same: bool) {
        self.agrees(other) && other.agrees(self)
    }
}

impl PartialEqSpecImpl for TextMap {
    open spec fn obeys_eq_spec() -> bool {
        true
    }

    open spec fn eq_spec(&self, other: &Self) -> bool {
        same_entries(self@, other@)
    }
}

impl View for TextMap {
    type V = Seq<(Seq<char>, Seq<char>)>;

    closed spec fn view(&self) -> Seq<(Seq<char>, Seq<char>)> {
        self.entries@.map_values(|e: TextEntry| e@)
    }
}

impl Clone for TextMap {
    fn clone(&self) -> (copy: Self)
        ensures
            copy@ == self@,
    {
        let entries = self.entries.clone();
        assert(entries@.map_values(|e: TextEntry| e@) =~= self.entries@.map_values(
            |e: TextEntry| e@,
        ));
        TextMap { entries }
    }
}

impl TextMap {
    /// The map has no key twice. Every map built with [`TextMap::new`] and
    /// [`TextMap::insert`] is well formed.
    pub open spec fn wf(&self) -> bool {
        distinct_keys(self@)
    }

    /// A map without entries.
    pub fn new() -> (map: TextMap)
        ensures
            map@ == Seq::<(Seq<char>, Seq<char>)>::empty(),
            map.wf(),
    {
        let map = TextMap { entries: Vec::new() };
        assert(map@ =~= Seq::<(Seq<char>, Seq<char>)>::empty());
        map
    }

    /// Number of entries.
    pub fn len(&self) -> (n: usize)
        ensures
            n == self@.len(),
    {
        self.entries.len()
    }

    /// Whether the map has no entry.
    pub fn is_empty(&self) -> (b: bool)
        ensures
            b == (self@.len() == 0),
    {
        self.entries.len() == 0
    }

    /// The key of the entry at `index`.
    pub fn key_at(&self, index: usize) -> (key: &str)
        requires
            index < self@.len(),
        ensures
            key@ == self@[index as int].0,
    {
        self.entries[index].key.as_str()
    }

    /// The value of the entry at `index`.
    pub fn value_at(&self, index: usize) -> (value: &str)
        requires
            index < self@.len(),
        ensures
            value@ == self@[index as int].1,
    {
        self.entries[index].value.as_str()
    }

    fn find(&self, key: &str) -> (at: usize)
        ensures
            at == position_of(self@, key@),
            at <= self@.len(),
    {
        let wanted = String::from_str(key);
        let mut at: usize = 0;
        assert(self@.skip(0) =~= self@);
        while at < self.entries.len() && !(self.entries[at].key == wanted)
            invariant
                at <= self.entries@.len(),
                wanted@ == key@,
                position_of(self@, key@) == at + position_of(self@.skip(at as int), key@),
            decreases self.entries@.len() - at,
        {
            proof {
                let rest = self@.skip(at as int);
                assert(rest[0] == self@[at as int]);
                assert(rest.drop_first() =~= self@.skip(at + 1));
            }
            at = at + 1;
        }
        proof {
            let rest = self@.skip(at as int);
            if at < self.entries@.len() {
                assert(rest[0] == self@[at as int]);
            }
        }
        at
    }

    /// Whether, under every key of this map, the other map holds what this
    /// map holds.
    pub fn agrees(&self, other: &TextMap) -> (yes: bool)
        ensures
            yes == agrees_with(self@, other@),
    {
        let mut i: usize = 0;
        while i < self.entries.len()
            invariant
                i <= self.entries@.len(),
                forall|j: int|
                    0 <= j < i ==> lookup(other@, (#[trigger] self@[j]).0) == lookup(
                        self@,
                        self@[j].0,
                    ),
            decreases self.entries@.len() - i,
        {
            let key = self.entries[i].key.as_str();
            let same = match (self.get(key), other.get(key)) {
                (Some(here), Some(there)) => str_eq(here, there),
                (None, None) => true,
                _ => false,
            };
            if !same {
                assert(lookup(other@, self@[i as int].0) != lookup(self@, self@[i as int].0));
                return false;
            }
            i = i + 1;
        }
        true
    }

    /// The value stored under `key`, if there is one.
    pub fn get(&self, key: &str) -> (value: Option<&str>)
        ensures
            match value {
                Some(v) => lookup(self@, key@) == Some(v@),
                None => lookup(self@, key@).is_none(),
            },
    {
        let at = self.find(key);
        if at < self.entries.len() {
            Some(self.entries[at].value.as_str())
        } else {
            None
        }
    }

    /// Whether a value is stored under `key`.
    pub fn contains_key(&self, key: &str) -> (found: bool)
        ensures
            found == lookup(self@, key@).is_some(),
    {
        let at = self.find(key);
        at < self.entries.len()
    }

    /// Adds an entry for a key that the map does not have yet.
    pub(crate) fn push(&mut self, key: &str, value: String)
        requires
            lookup(old(self)@, key@).is_none(),
        ensures
            final(self)@ == old(self)@.push((key@, value@)),
            old(self).wf() ==> final(self).wf(),
    {
        proof {
            lemma_position_of(self@, key@);
        }
        self.insert(String::from_str(key), value);
    }

    /// Sets `key` to `value` and returns the value that `key` had before.
    pub fn insert(&mut self, key: String, value: String) -> (previous: Option<String>)
        ensures
            final(self)@ == with_entry(old(self)@, key@, value@),
            old(self).wf() ==> final(self).wf(),
            match previous {
                Some(v) => lookup(old(self)@, key@) == Some(v@),
                None => lookup(old(self)@, key@).is_none(),
            },
    {
        let at = self.find(key.as_str());
        proof {
            if old(self).wf() {
                lemma_with_entry_distinct(old(self)@, key@, value@);
            }
        }
        if at < self.entries.len() {
            let mut entry = TextEntry { key, value };
            let ghost replaced = entry@;
            let slot = &mut self.entries[at];
            core::mem::swap(slot, &mut entry);
            assert(self@ =~= old(self)@.update(at as int, replaced));
            Some(entry.value)
        } else {
            self.entries.push(TextEntry { key, value });
            assert(self@ =~= old(self)@.push((key@, value@)));
            None
        }
    }
}

} // verus!
