//! A small map from strings to values, kept as a list of entries in which no
//! key occurs twice.
//!
//! The map is viewed as a mathematical `Map` from the key's characters to the
//! value's view.

use crate::text::same_text;
use vstd::prelude::*;

verus! {

/// The map that a list of entries stands for: each entry is inserted in turn.
pub open spec fn entries_map<V: View>(entries: Seq<(String, V)>) -> Map<Seq<char>, V::V>
    decreases entries.len(),
{
    if entries.len() == 0 {
        Map::empty()
    } else {
        entries_map(entries.drop_last()).insert(entries.last().0@, entries.last().1@)
    }
}

/// No key occurs twice in the list.
pub open spec fn keys_distinct<V>(entries: Seq<(String, V)>) -> bool {
    forall|i: int, j: int|
        0 <= i < j < entries.len() ==> (#[trigger] entries[i]).0@ != (#[trigger] entries[j]).0@
}

/// Whether some entry of the list has the key.
pub open spec fn has_key<V>(entries: Seq<(String, V)>, key: Seq<char>) -> bool {
    exists|i: int| 0 <= i < entries.len() && (#[trigger] entries[i]).0@ == key
}

/// The keys of the map are the keys of the entries, and there are finitely
/// many.
pub proof fn lemma_entries_map_dom<V: View>(entries: Seq<(String, V)>, key: Seq<char>)
    ensures
        entries_map(entries).contains_key(key) <==> has_key(entries, key),
        entries_map(entries).dom().finite(),
    decreases entries.len(),
{
    if entries.len() > 0 {
        let init = entries.drop_last();
        lemma_entries_map_dom(init, key);
        if has_key(init, key) {
            let i = choose|i: int| 0 <= i < init.len() && (#[trigger] init[i]).0@ == key;
            assert(entries[i].0@ == key);
        }
        if entries.last().0@ == key {
            assert(entries[entries.len() - 1].0@ == key);
        }
        if has_key(entries, key) {
            let i = choose|i: int| 0 <= i < entries.len() && (#[trigger] entries[i]).0@ == key;
            if i < init.len() {
                assert(init[i].0@ == key);
            }
        }
    }
}

/// Where no key occurs twice, the map holds under each entry's key that
/// entry's value.
pub proof fn lemma_entries_map_value<V: View>(entries: Seq<(String, V)>, index: int)
    requires
        keys_distinct(entries),
        0 <= index < entries.len(),
    ensures
        entries_map(entries).contains_key(entries[index].0@),
        entries_map(entries)[entries[index].0@] == entries[index].1@,
    decreases entries.len(),
{
    let init = entries.drop_last();
    if index < entries.len() - 1 {
        assert(keys_distinct(init)) by {
            assert forall|i: int, j: int| 0 <= i < j < init.len() implies (#[trigger] init[i]).0@
                != (#[trigger] init[j]).0@ by {
                assert(entries[i].0@ != entries[j].0@);
            }
        }
        lemma_entries_map_value(init, index);
        assert(entries[index].0@ != entries[entries.len() - 1].0@);
    }
}

/// Where no key occurs twice, taking an entry out of the list removes its
/// key from the map and leaves the other keys as they were.
pub proof fn lemma_entries_map_remove<V: View>(entries: Seq<(String, V)>, index: int)
    requires
        keys_distinct(entries),
        0 <= index < entries.len(),
    ensures
        keys_distinct(entries.remove(index)),
        entries_map(entries.remove(index)) == entries_map(entries).remove(entries[index].0@),
    decreases entries.len(),
{
    let key = entries[index].0@;
    let init = entries.drop_last();
    let last = entries.last();
    let shorter = entries.remove(index);
    assert(keys_distinct(shorter)) by {
        assert forall|i: int, j: int| 0 <= i < j < shorter.len() implies (#[trigger] shorter[i]).0@
            != (#[trigger] shorter[j]).0@ by {
            let a = if i < index {
                i
            } else {
                i + 1
            };
            let b = if j < index {
                j
            } else {
                j + 1
            };
            assert(entries[a].0@ != entries[b].0@);
        }
    }
    assert(keys_distinct(init)) by {
        assert forall|i: int, j: int| 0 <= i < j < init.len() implies (#[trigger] init[i]).0@ != (
        #[trigger] init[j]).0@ by {
            assert(entries[i].0@ != entries[j].0@);
        }
    }
    if index == entries.len() - 1 {
        assert(shorter =~= init);
        lemma_entries_map_dom(init, key);
        if has_key(init, key) {
            let i = choose|i: int| 0 <= i < init.len() && (#[trigger] init[i]).0@ == key;
            assert(entries[i].0@ != entries[index].0@);
        }
        assert(entries_map(init) =~= entries_map(init).insert(key, last.1@).remove(key));
    } else {
        lemma_entries_map_remove(init, index);
        assert(shorter.drop_last() =~= init.remove(index));
        assert(shorter.last() == last);
        assert(entries[index].0@ != entries[entries.len() - 1].0@);
        assert(entries_map(init).remove(key).insert(last.0@, last.1@) =~= entries_map(
            init,
        ).insert(last.0@, last.1@).remove(key));
    }
}

/// Where no key occurs twice, the map has as many keys as the list has
/// entries.
pub proof fn lemma_entries_map_len<V: View>(entries: Seq<(String, V)>)
    requires
        keys_distinct(entries),
    ensures
        entries_map(entries).dom().finite(),
        entries_map(entries).dom().len() == entries.len(),
    decreases entries.len(),
{
    lemma_entries_map_dom(entries, Seq::empty());
    if entries.len() > 0 {
        let init = entries.drop_last();
        let key = entries.last().0@;
        assert(keys_distinct(init)) by {
            assert forall|i: int, j: int| 0 <= i < j < init.len() implies (#[trigger] init[i]).0@ != (
            #[trigger] init[j]).0@ by {
                assert(entries[i].0@ != entries[j].0@);
            }
        }
        lemma_entries_map_len(init);
        lemma_entries_map_dom(init, key);
        if has_key(init, key) {
            let i = choose|i: int| 0 <= i < init.len() && (#[trigger] init[i]).0@ == key;
            assert(entries[i].0@ != entries[entries.len() - 1].0@);
        }
        assert(entries_map(entries).dom() =~= entries_map(init).dom().insert(key));
    }
}

/// A map from strings to values of type `V`.
#[derive(Debug)]
pub struct StringMap<V> {
    entries: Vec<(String, V)>,
}

impl<V: View> View for StringMap<V> {
    type V = Map<Seq<char>, V::V>;

    closed spec fn view(&self) -> Map<Seq<char>, V::V> {
        entries_map(self.entries@)
    }
}

impl<V> StringMap<V> {
    #[verifier::type_invariant]
    spec fn no_key_twice(self) -> bool {
        keys_distinct(self.entries@)
    }

    /// The entries behind the map, in the order in which they are kept.
    pub closed spec fn entries_view(&self) -> Seq<(String, V)> {
        self.entries@
    }
}

impl<V: Clone> Clone for StringMap<V> {
    /// A map with the same keys, each with a clone of its value.
    fn clone(&self) -> (copy: Self)
        ensures
            copy.entries_view().len() == self.entries_view().len(),
            forall|i: int|
                0 <= i < self.entries_view().len() ==> (#[trigger] copy.entries_view()[i]).0@
                    == self.entries_view()[i].0@,
    {
        proof {
            use_type_invariant(self);
        }
        let mut entries: Vec<(String, V)> = Vec::new();
        let mut i: usize = 0;
        while i < self.entries.len()
            invariant
                i <= self.entries.len(),
                entries@.len() == i,
                forall|j: int| 0 <= j < i ==> (#[trigger] entries@[j]).0@ == self.entries@[j].0@,
            decreases self.entries.len() - i,
        {
            entries.push((self.entries[i].0.clone(), self.entries[i].1.clone()));
            i = i + 1;
        }
        proof {
            assert forall|a: int, b: int| 0 <= a < b < entries@.len() implies (
            #[trigger] entries@[a]).0@ != (#[trigger] entries@[b]).0@ by {
                assert(self.entries@[a].0@ != self.entries@[b].0@);
            }
        }
        StringMap { entries }
    }
}

impl<V: View> StringMap<V> {
    /// The empty map.
    pub fn new() -> (map: Self)
        ensures
            map@ == Map::<Seq<char>, V::V>::empty(),
            map.entries_view().len() == 0,
    {
        StringMap { entries: Vec::new() }
    }

    /// The place of `key` in the list of entries, if it has one.
    fn position(&self, key: &str) -> (found: Option<usize>)
        ensures
            found is Some <==> has_key(self.entries@, key@),
            found matches Some(index) ==> index < self.entries@.len() && self.entries@[index as int].0@
                == key@,
    {
        let mut i: usize = 0;
        while i < self.entries.len()
            invariant
                i <= self.entries.len(),
                forall|j: int| 0 <= j < i ==> (#[trigger] self.entries@[j]).0@ != key@,
            decreases self.entries.len() - i,
        {
            if same_text(self.entries[i].0.as_str(), key) {
                return Some(i);
            }
            i = i + 1;
        }
        None
    }

    /// The value stored under `key`, if there is one.
    pub fn get(&self, key: &str) -> (found: Option<&V>)
        ensures
            found is Some <==> self@.contains_key(key@),
            found matches Some(value) ==> value@ == self@[key@],
    {
        proof {
            use_type_invariant(self);
            lemma_entries_map_dom(self.entries@, key@);
        }
        match self.position(key) {
            Some(index) => {
                proof {
                    lemma_entries_map_value(self.entries@, index as int);
                }
                Some(&self.entries[index].1)
            },
            None => None,
        }
    }

    /// Whether a value is stored under `key`.
    pub fn contains_key(&self, key: &str) -> (found: bool)
        ensures
            found == self@.contains_key(key@),
    {
        self.get(key).is_some()
    }

    /// Stores `value` under `key`, in place of what was stored there.
    pub fn insert(&mut self, key: String, value: V)
        ensures
            final(self)@ == old(self)@.insert(key@, value@),
    {
        self.remove(key.as_str());
        proof {
            use_type_invariant(&*self);
            lemma_entries_map_dom(self.entries@, key@);
            let after = self.entries@.push((key, value));
            assert(after.drop_last() == self.entries@);
            assert(keys_distinct(after)) by {
                assert forall|i: int, j: int| 0 <= i < j < after.len() implies (
                #[trigger] after[i]).0@ != (#[trigger] after[j]).0@ by {
                    if j < self.entries@.len() {
                        assert(self.entries@[i].0@ != self.entries@[j].0@);
                    } else {
                        assert(self.entries@[i].0@ != key@);
                    }
                }
            }
            assert(old(self)@.remove(key@).insert(key@, value@) =~= old(self)@.insert(
                key@,
                value@,
            ));
        }
        let mut entries: Vec<(String, V)> = Vec::new();
        std::mem::swap(&mut self.entries, &mut entries);
        entries.push((key, value));
        self.entries = entries;
    }

    /// Removes what is stored under `key`, and says whether there was
    /// anything. Removing a key that is not there changes nothing.
    pub fn remove(&mut self, key: &str) -> (was_present: bool)
        ensures
            final(self)@ == old(self)@.remove(key@),
            was_present == old(self)@.contains_key(key@),
    {
        proof {
            use_type_invariant(&*self);
            lemma_entries_map_dom(self.entries@, key@);
        }
        match self.position(key) {
            Some(index) => {
                proof {
                    lemma_entries_map_remove(self.entries@, index as int);
                }
                let mut entries: Vec<(String, V)> = Vec::new();
                std::mem::swap(&mut self.entries, &mut entries);
                entries.remove(index);
                self.entries = entries;
                true
            },
            None => {
                proof {
                    assert(self@.remove(key@) =~= self@);
                }
                false
            },
        }
    }

    /// The number of keys. Each key of the map is the key of exactly one
    /// entry, and the entries have no other keys.
    pub fn len(&self) -> (count: usize)
        ensures
            count == self@.dom().len(),
            count == self.entries_view().len(),
            keys_distinct(self.entries_view()),
            self@ == entries_map(self.entries_view()),
            forall|key: Seq<char>|
                self@.contains_key(key) ==> #[trigger] has_key(self.entries_view(), key),
    {
        proof {
            use_type_invariant(self);
            lemma_entries_map_len(self.entries@);
            assert forall|key: Seq<char>| self@.contains_key(key) implies #[trigger] has_key(
                self.entries_view(),
                key,
            ) by {
                lemma_entries_map_dom(self.entries@, key);
            }
        }
        self.entries.len()
    }

    /// The key and the value of the entry at `index`.
    pub fn entry_at(&self, index: usize) -> (entry: (&String, &V))
        requires
            index < self.entries_view().len(),
        ensures
            *entry.0 == self.entries_view()[index as int].0,
            *entry.1 == self.entries_view()[index as int].1,
            self@.contains_key(entry.0@),
            self@[entry.0@] == entry.1@,
    {
        proof {
            use_type_invariant(self);
            lemma_entries_map_value(self.entries@, index as int);
        }
        (&self.entries[index].0, &self.entries[index].1)
    }
}

} // verus!
