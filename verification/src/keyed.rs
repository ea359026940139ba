//! Sets and maps keyed by text.
//!
//! Both keep their entries in a vector without a key occurring twice, and a
//! lookup goes through the entries in turn.

use vstd::prelude::*;

use crate::text::same_text;

verus! {

/// A value that can be copied as a whole.
pub trait Snapshot: View + Sized {
    /// A copy of the value.
    fn snapshot(&self) -> (copy: Self)
        ensures
            copy@ == self@,
    ;
}

/// The texts of a row of strings.
pub open spec fn texts(strings: Seq<String>) -> Seq<Seq<char>> {
    Seq::new(strings.len(), |i: int| strings[i]@)
}

/// The texts of a row of strings are those of its strings, one for one.
pub proof fn law_texts_one_for_one(strings: Seq<String>, i: int)
    ensures
        texts(strings).len() == strings.len(),
        0 <= i < strings.len() ==> texts(strings)[i] == strings[i]@,
{
}

/// A set of texts.
#[derive(Debug)]
pub struct TextSet {
    members: Vec<String>,
}

impl View for TextSet {
    type V = Set<Seq<char>>;

    closed spec fn view(&self) -> Set<Seq<char>> {
        texts(self.members@).to_set()
    }
}

impl TextSet {
    #[verifier::type_invariant]
    closed spec fn distinct(self) -> bool {
        texts(self.members@).no_duplicates()
    }

    /// The empty set.
    pub fn new() -> (set: Self)
        ensures
            set@ == Set::<Seq<char>>::empty(),
    {
        let set = TextSet { members: Vec::new() };
        assert(set@ =~= Set::<Seq<char>>::empty());
        set
    }

    /// The number of members.
    pub fn len(&self) -> (count: usize)
        ensures
            self@.finite(),
            count == self@.len(),
    {
        proof {
            use_type_invariant(self);
            texts(self.members@).unique_seq_to_set();
            vstd::seq_lib::seq_to_set_is_finite(texts(self.members@));
        }
        self.members.len()
    }

    /// The members, each once. Their order is not specified.
    pub fn to_vec(&self) -> (members: Vec<String>)
        ensures
            texts(members@).no_duplicates(),
            texts(members@).to_set() == self@,
    {
        proof {
            use_type_invariant(self);
        }
        let members = self.members.clone();
        assert(texts(members@) =~= texts(self.members@));
        members
    }

    /// The position of the member `text`.
    fn find(&self, text: &str) -> (position: Option<usize>)
        ensures
            match position {
                Some(i) => i < self.members@.len() && self.members@[i as int]@ == text@,
                None => !texts(self.members@).contains(text@),
            },
    {
        for i in 0..self.members.len()
            invariant
                forall|j: int| 0 <= j < i ==> texts(self.members@)[j] != text@,
        {
            if same_text(self.members[i].as_str(), text) {
                return Some(i);
            }
        }
        None
    }

    /// Whether `text` is a member.
    pub fn contains(&self, text: &str) -> (found: bool)
        ensures
            found == self@.contains(text@),
    {
        match self.find(text) {
            Some(i) => {
                assert(texts(self.members@)[i as int] == text@);
                true
            },
            None => false,
        }
    }

    /// Add a member.
    pub fn insert(&mut self, text: String)
        ensures
            final(self)@ == old(self)@.insert(text@),
    {
        if self.contains(text.as_str()) {
            assert(self@ =~= self@.insert(text@));
            return;
        }
        proof {
            use_type_invariant(&*self);
        }
        let ghost before = texts(self.members@);
        let mut members: Vec<String> = Vec::new();
        std::mem::swap(&mut members, &mut self.members);
        members.push(text);
        proof {
            let after = texts(members@);
            assert(after =~= before.push(text@));
            assert forall|t: Seq<char>| after.to_set().contains(t) == before.to_set().insert(
                text@,
            ).contains(t) by {
                if before.contains(t) {
                    let i = choose|i: int| 0 <= i < before.len() && before[i] == t;
                    assert(after[i] == t);
                }
                if t == text@ {
                    assert(after[before.len() as int] == t);
                }
            }
            assert(after.to_set() =~= before.to_set().insert(text@));
            assert(after.no_duplicates()) by {
                assert forall|i: int| 0 <= i < before.len() implies before[i] != text@ by {
                    assert(before.contains(before[i]));
                }
            }
        }
        self.members = members;
    }

    /// Take a member out, if it is one.
    pub fn remove(&mut self, text: &str)
        ensures
            final(self)@ == old(self)@.remove(text@),
    {
        proof {
            use_type_invariant(&*self);
        }
        match self.find(text) {
            Some(i) => {
                let ghost before = texts(self.members@);
                let mut members: Vec<String> = Vec::new();
                std::mem::swap(&mut members, &mut self.members);
                members.remove(i);
                proof {
                    let after = texts(members@);
                    assert(after =~= before.remove(i as int));
                    assert(before[i as int] == text@);
                    assert forall|t: Seq<char>| after.to_set().contains(t)
                        == before.to_set().remove(text@).contains(t) by {
                        if after.contains(t) {
                            let j = choose|j: int| 0 <= j < after.len() && after[j] == t;
                            let j0 = if j < i { j } else { j + 1 };
                            assert(before[j0] == t);
                        }
                        if t != text@ && before.contains(t) {
                            let j = choose|j: int| 0 <= j < before.len() && before[j] == t;
                            let j1 = if j < i { j } else { j - 1 };
                            assert(after[j1] == t);
                        }
                    }
                    assert(after.to_set() =~= before.to_set().remove(text@));
                }
                self.members = members;
            },
            None => {
                assert(self@ =~= self@.remove(text@));
            },
        }
    }
}

impl Clone for TextSet {
    fn clone(&self) -> (copy: Self)
        ensures
            copy@ == self@,
    {
        proof {
            use_type_invariant(self);
        }
        let members = self.members.clone();
        assert(texts(members@) =~= texts(self.members@));
        TextSet { members }
    }
}

/// Some entry has the key `key`.
pub open spec fn has_key<V>(entries: Seq<(String, V)>, key: Seq<char>) -> bool {
    exists|i: int| key_at(entries, key, i)
}

/// The entry at position `i` has the key `key`.
pub open spec fn key_at<V>(entries: Seq<(String, V)>, key: Seq<char>, i: int) -> bool {
    0 <= i < entries.len() && entries[i].0@ == key
}

/// No two entries have the same key.
pub open spec fn keys_distinct<V>(entries: Seq<(String, V)>) -> bool {
    forall|i: int, j: int|
        0 <= i < j < entries.len() ==> #[trigger] entries[i].0@ != #[trigger] entries[j].0@
}

/// The entries as a map.
pub open spec fn entries_map<V: View>(entries: Seq<(String, V)>) -> Map<Seq<char>, V::V> {
    Map::new(
        |key: Seq<char>| has_key(entries, key),
        |key: Seq<char>| entries[choose|i: int| key_at(entries, key, i)].1@,
    )
}

/// Where keys are distinct, an entry is what the map holds under its key.
pub proof fn lemma_entry<V: View>(entries: Seq<(String, V)>, i: int)
    requires
        keys_distinct(entries),
        0 <= i < entries.len(),
    ensures
        entries_map(entries).contains_key(entries[i].0@),
        entries_map(entries)[entries[i].0@] == entries[i].1@,
{
    let key = entries[i].0@;
    assert(key_at(entries, key, i));
    let j = choose|j: int| key_at(entries, key, j);
    assert(key_at(entries, key, j));
    assert(i == j);
}

/// The keys of the entries, in order.
pub open spec fn entry_keys<V>(entries: Seq<(String, V)>) -> Seq<Seq<char>> {
    Seq::new(entries.len(), |i: int| entries[i].0@)
}

/// Where keys are distinct, the keys of the entries are those of the map, each
/// once.
pub proof fn lemma_entry_keys<V: View>(entries: Seq<(String, V)>)
    requires
        keys_distinct(entries),
    ensures
        entry_keys(entries).no_duplicates(),
        entry_keys(entries).to_set() == entries_map(entries).dom(),
{
    let keys = entry_keys(entries);
    assert forall|k: Seq<char>| keys.to_set().contains(k) == entries_map(
        entries,
    ).dom().contains(k) by {
        if keys.contains(k) {
            let i = choose|i: int| 0 <= i < keys.len() && keys[i] == k;
            assert(key_at(entries, k, i));
        }
        if has_key(entries, k) {
            let i = choose|i: int| key_at(entries, k, i);
            assert(keys[i] == k);
        }
    }
    assert(keys.to_set() =~= entries_map(entries).dom());
}

/// A map from texts to values.
#[derive(Debug)]
pub struct TextMap<V: View> {
    entries: Vec<(String, V)>,
}

impl<V: View> View for TextMap<V> {
    type V = Map<Seq<char>, V::V>;

    closed spec fn view(&self) -> Map<Seq<char>, V::V> {
        entries_map(self.entries@)
    }
}

impl<V: View> TextMap<V> {
    #[verifier::type_invariant]
    closed spec fn distinct(self) -> bool {
        keys_distinct(self.entries@)
    }

    /// The empty map.
    pub fn new() -> (map: Self)
        ensures
            map@ == Map::<Seq<char>, V::V>::empty(),
    {
        let map = TextMap { entries: Vec::new() };
        assert(map@ =~= Map::<Seq<char>, V::V>::empty());
        map
    }

    /// The number of entries.
    pub fn len(&self) -> (count: usize)
        ensures
            self@.dom().finite(),
            count == self@.dom().len(),
    {
        proof {
            use_type_invariant(self);
            let keys = entry_keys(self.entries@);
            lemma_entry_keys(self.entries@);
            keys.unique_seq_to_set();
            vstd::seq_lib::seq_to_set_is_finite(keys);
        }
        self.entries.len()
    }

    /// The keys, each once. Their order is not specified.
    pub fn keys(&self) -> (keys: Vec<String>)
        ensures
            texts(keys@).no_duplicates(),
            texts(keys@).to_set() == self@.dom(),
    {
        proof {
            use_type_invariant(self);
            lemma_entry_keys(self.entries@);
        }
        let mut keys: Vec<String> = Vec::new();
        for i in 0..self.entries.len()
            invariant
                keys@.len() == i,
                forall|j: int| 0 <= j < i ==> #[trigger] keys@[j]@ == self.entries@[j].0@,
        {
            keys.push(self.entries[i].0.clone());
        }
        assert(texts(keys@) =~= entry_keys(self.entries@));
        keys
    }

    /// The position of the entry with key `key`.
    fn find(&self, key: &str) -> (position: Option<usize>)
        ensures
            match position {
                Some(i) => key_at(self.entries@, key@, i as int),
                None => !has_key(self.entries@, key@),
            },
    {
        for i in 0..self.entries.len()
            invariant
                forall|j: int| 0 <= j < i ==> self.entries@[j].0@ != key@,
        {
            if same_text(self.entries[i].0.as_str(), key) {
                return Some(i);
            }
        }
        None
    }

    /// The value under `key`.
    pub fn get(&self, key: &str) -> (value: Option<&V>)
        ensures
            match value {
                Some(found) => self@.contains_key(key@) && self@[key@] == found@,
                None => !self@.contains_key(key@),
            },
    {
        proof {
            use_type_invariant(self);
        }
        match self.find(key) {
            Some(i) => {
                proof {
                    lemma_entry(self.entries@, i as int);
                }
                Some(&self.entries[i].1)
            },
            None => None,
        }
    }

    /// Take the value under `key` out of the map.
    pub fn remove(&mut self, key: &str) -> (value: Option<V>)
        ensures
            final(self)@ == old(self)@.remove(key@),
            match value {
                Some(taken) => old(self)@.contains_key(key@) && old(self)@[key@] == taken@,
                None => !old(self)@.contains_key(key@),
            },
    {
        proof {
            use_type_invariant(&*self);
        }
        match self.find(key) {
            Some(i) => {
                let ghost before = self.entries@;
                let mut entries: Vec<(String, V)> = Vec::new();
                std::mem::swap(&mut entries, &mut self.entries);
                let entry = entries.remove(i);
                proof {
                    let after = entries@;
                    lemma_entry(before, i as int);
                    assert(after =~= before.remove(i as int));
                    assert forall|k: Seq<char>| has_key(after, k) == (k != key@ && has_key(before, k)) by {
                        if has_key(after, k) {
                            let j = choose|j: int| key_at(after, k, j);
                            let j0 = if j < i { j } else { j + 1 };
                            assert(key_at(before, k, j0));
                            assert(before[j0].0@ != before[i as int].0@);
                        }
                        if k != key@ && has_key(before, k) {
                            let j = choose|j: int| key_at(before, k, j);
                            let j1 = if j < i { j } else { j - 1 };
                            assert(key_at(after, k, j1));
                        }
                    }
                    assert(keys_distinct(after));
                    assert forall|k: Seq<char>| has_key(after, k) implies entries_map(after)[k]
                        == entries_map(before)[k] by {
                        let j = choose|j: int| key_at(after, k, j);
                        let j0 = if j < i { j } else { j + 1 };
                        lemma_entry(after, j);
                        lemma_entry(before, j0);
                    }
                    assert(entries_map(after) =~= entries_map(before).remove(key@));
                }
                self.entries = entries;
                Some(entry.1)
            },
            None => {
                assert(self@ =~= self@.remove(key@));
                None
            },
        }
    }

    /// Put a value under `key`, in place of one that is there.
    pub fn insert(&mut self, key: String, value: V)
        ensures
            final(self)@ == old(self)@.insert(key@, value@),
    {
        let ghost full = self@;
        self.remove(key.as_str());
        proof {
            use_type_invariant(&*self);
        }
        let ghost before = self.entries@;
        assert(entries_map(before) == full.remove(key@));
        assert(!has_key(before, key@)) by {
            assert(!self@.contains_key(key@));
        }
        let mut entries: Vec<(String, V)> = Vec::new();
        std::mem::swap(&mut entries, &mut self.entries);
        entries.push((key, value));
        proof {
            let after = entries@;
            let last = before.len() as int;
            assert(after[last].0@ == key@);
            assert forall|j: int| 0 <= j < last implies before[j].0@ != key@ by {
                if before[j].0@ == key@ {
                    assert(key_at(before, key@, j));
                }
            }
            assert(keys_distinct(after));
            lemma_entry(after, last);
            assert forall|k: Seq<char>| has_key(after, k) == (k == key@ || has_key(before, k)) by {
                if has_key(after, k) {
                    let j = choose|j: int| key_at(after, k, j);
                    if j < last {
                        assert(key_at(before, k, j));
                    }
                }
                if k == key@ {
                    assert(key_at(after, k, last));
                }
                if has_key(before, k) {
                    let j = choose|j: int| key_at(before, k, j);
                    assert(key_at(after, k, j));
                }
            }
            assert forall|k: Seq<char>| has_key(before, k) implies entries_map(after)[k]
                == entries_map(before)[k] by {
                let j = choose|j: int| key_at(before, k, j);
                lemma_entry(before, j);
                lemma_entry(after, j);
            }
            assert(entries_map(after) =~= entries_map(before).insert(key@, value@));
            assert(full.remove(key@).insert(key@, value@) =~= full.insert(key@, value@));
        }
        self.entries = entries;
    }
}

impl<V: Snapshot> Clone for TextMap<V> {
    fn clone(&self) -> (copy: Self)
        ensures
            copy@ == self@,
    {
        proof {
            use_type_invariant(self);
        }
        let mut entries: Vec<(String, V)> = Vec::new();
        for i in 0..self.entries.len()
            invariant
                entries@.len() == i,
                forall|j: int|
                    0 <= j < i ==> (#[trigger] entries@[j]).0@ == self.entries@[j].0@
                        && entries@[j].1@ == self.entries@[j].1@,
        {
            let entry = (self.entries[i].0.clone(), self.entries[i].1.snapshot());
            entries.push(entry);
        }
        proof {
            let from = self.entries@;
            let to = entries@;
            assert(keys_distinct(to));
            assert forall|k: Seq<char>| has_key(to, k) == has_key(from, k) by {
                if has_key(to, k) {
                    let j = choose|j: int| key_at(to, k, j);
                    assert(key_at(from, k, j));
                }
                if has_key(from, k) {
                    let j = choose|j: int| key_at(from, k, j);
                    assert(key_at(to, k, j));
                }
            }
            assert forall|k: Seq<char>| has_key(to, k) implies entries_map(to)[k]
                == entries_map(from)[k] by {
                let j = choose|j: int| key_at(to, k, j);
                lemma_entry(to, j);
                lemma_entry(from, j);
            }
            assert(entries_map(to) =~= entries_map(from));
        }
        TextMap { entries }
    }
}

} // verus!
