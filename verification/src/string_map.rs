//! A dictionary keyed by strings.

use vstd::prelude::*;

verus! {

/// A dictionary from strings to values, in which no key occurs twice.
///
/// Its model is the finite map from the characters of each key to the model
/// of the value held for it.
#[derive(Debug)]
pub struct StringMap<T> {
    entries: Vec<(String, T)>,
}

/// No two entries have the same key.
pub open spec fn distinct_keys<T>(entries: Seq<(String, T)>) -> bool {
    forall|i: int, j: int|
        0 <= i < j < entries.len() ==> (#[trigger] entries[i]).0@ != (#[trigger] entries[j]).0@
}

/// The map that a sequence of entries stands for, later entries last.
pub open spec fn entries_map<T: View>(entries: Seq<(String, T)>) -> Map<Seq<char>, T::V>
    decreases entries.len(),
{
    if entries.len() == 0 {
        Map::empty()
    } else {
        entries_map(entries.drop_last()).insert(entries.last().0@, entries.last().1@)
    }
}

/// A key is in the map exactly if some entry has it.
proof fn lemma_entries_map_dom<T: View>(entries: Seq<(String, T)>, key: Seq<char>)
    ensures
        entries_map(entries).contains_key(key) <==> exists|i: int|
            0 <= i < entries.len() && (#[trigger] entries[i]).0@ == key,
    decreases entries.len(),
{
    if entries.len() > 0 {
        let front = entries.drop_last();
        lemma_entries_map_dom(front, key);
        if entries_map(front).contains_key(key) {
            let i = choose|i: int| 0 <= i < front.len() && (#[trigger] front[i]).0@ == key;
            assert(entries[i].0@ == key);
        }
        if entries.last().0@ == key {
            assert(entries[entries.len() - 1].0@ == key);
        }
        if exists|i: int| 0 <= i < entries.len() && (#[trigger] entries[i]).0@ == key {
            let i = choose|i: int| 0 <= i < entries.len() && (#[trigger] entries[i]).0@ == key;
            if i < front.len() {
                assert(front[i].0@ == key);
            }
        }
    }
}

/// With distinct keys, the map holds for each entry's key that entry's value.
proof fn lemma_entries_map_at<T: View>(entries: Seq<(String, T)>, i: int)
    requires
        distinct_keys(entries),
        0 <= i < entries.len(),
    ensures
        entries_map(entries).contains_key(entries[i].0@),
        entries_map(entries)[entries[i].0@] == entries[i].1@,
    decreases entries.len(),
{
    let front = entries.drop_last();
    if i < front.len() {
        assert(front[i] == entries[i]);
        assert(distinct_keys(front)) by {
            assert forall|a: int, b: int| 0 <= a < b < front.len() implies (
            #[trigger] front[a]).0@ != (#[trigger] front[b]).0@ by {
                assert(entries[a].0@ != entries[b].0@);
            }
        }
        lemma_entries_map_at(front, i);
        assert(entries[i].0@ != entries[entries.len() - 1].0@);
    }
}

impl<T: View> View for StringMap<T> {
    type V = Map<Seq<char>, T::V>;

    closed spec fn view(&self) -> Map<Seq<char>, T::V> {
        entries_map(self.entries@)
    }
}

impl<T> StringMap<T> {
    #[verifier::type_invariant]
    spec fn well_formed(self) -> bool {
        distinct_keys(self.entries@)
    }
}

impl<T: View> StringMap<T> {
    /// The empty dictionary.
    pub fn new() -> (map: Self)
        ensures
            map@ == Map::<Seq<char>, T::V>::empty(),
    {
        StringMap { entries: Vec::new() }
    }

    /// The index of the entry for `key`.
    fn position(&self, key: &str) -> (found: Option<usize>)
        ensures
            match found {
                Some(i) => i < self.entries@.len() && self.entries@[i as int].0@ == key@,
                None => forall|i: int|
                    0 <= i < self.entries@.len() ==> (#[trigger] self.entries@[i]).0@ != key@,
            },
    {
        let wanted: String = key.to_owned();
        let mut i: usize = 0;
        while i < self.entries.len()
            invariant
                i <= self.entries@.len(),
                wanted@ == key@,
                forall|k: int| 0 <= k < i ==> (#[trigger] self.entries@[k]).0@ != key@,
            decreases self.entries@.len() - i,
        {
            if self.entries[i].0 == wanted {
                return Some(i);
            }
            i = i + 1;
        }
        None
    }

    /// Holds `value` for `key` from now on, in place of what was held for it.
    pub fn insert(&mut self, key: String, value: T)
        ensures
            final(self)@ == old(self)@.insert(key@, value@),
    {
        proof {
            use_type_invariant(&*self);
        }
        let found = self.position(key.as_str());
        let ghost before = self.entries@;
        let mut entries: Vec<(String, T)> = Vec::new();
        std::mem::swap(&mut entries, &mut self.entries);
        let ghost added = (key, value);
        match found {
            Some(i) => {
                entries.set(i, (key, value));
                proof {
                    assert(distinct_keys(entries@)) by {
                        assert forall|a: int, b: int| 0 <= a < b < entries@.len() implies (
                        #[trigger] entries@[a]).0@ != (#[trigger] entries@[b]).0@ by {
                            assert(before[a].0@ != before[b].0@);
                        }
                    }
                }
            },
            None => {
                entries.push((key, value));
            },
        }
        proof {
            lemma_insert(before, entries@, added, found);
        }
        self.entries = entries;
    }

    /// What is held for `key`.
    pub fn get(&self, key: &str) -> (value: Option<&T>)
        ensures
            match value {
                Some(held) => self@.contains_key(key@) && held@ == self@[key@],
                None => !self@.contains_key(key@),
            },
    {
        proof {
            use_type_invariant(self);
            lemma_entries_map_dom(self.entries@, key@);
        }
        match self.position(key) {
            Some(i) => {
                proof {
                    lemma_entries_map_at(self.entries@, i as int);
                }
                Some(&self.entries[i].1)
            },
            None => None,
        }
    }

    /// Whether nothing is held.
    pub fn is_empty(&self) -> (empty: bool)
        ensures
            empty <==> self@ == Map::<Seq<char>, T::V>::empty(),
    {
        proof {
            if self.entries@.len() > 0 {
                assert(self@.contains_key(self.entries@.last().0@));
            }
        }
        self.entries.len() == 0
    }
}

/// Replacing the entry found for a key, or adding one where none was found,
/// inserts into the map.
proof fn lemma_insert<T: View>(
    before: Seq<(String, T)>,
    after: Seq<(String, T)>,
    added: (String, T),
    found: Option<usize>,
)
    requires
        distinct_keys(before),
        distinct_keys(after),
        match found {
            Some(i) => i < before.len() && before[i as int].0@ == added.0@ && after
                == before.update(i as int, added),
            None => after == before.push(added),
        },
    ensures
        entries_map(after) == entries_map(before).insert(added.0@, added.1@),
{
    match found {
        None => {
            assert(after.drop_last() =~= before);
        },
        Some(at) => {
            let left = entries_map(after);
            let right = entries_map(before).insert(added.0@, added.1@);
            assert forall|key: Seq<char>| left.contains_key(key) <==> right.contains_key(key) by {
                lemma_entries_map_dom(after, key);
                lemma_entries_map_dom(before, key);
                if left.contains_key(key) {
                    let i = choose|i: int| 0 <= i < after.len() && (#[trigger] after[i]).0@ == key;
                    assert(before[i].0@ == key);
                }
                if entries_map(before).contains_key(key) {
                    let i = choose|i: int|
                        0 <= i < before.len() && (#[trigger] before[i]).0@ == key;
                    assert(after[i].0@ == key);
                }
                if key == added.0@ {
                    assert(after[at as int].0@ == key);
                }
            }
            assert forall|key: Seq<char>| left.contains_key(key) implies left[key] == right[key] by {
                lemma_entries_map_dom(after, key);
                let i = choose|i: int| 0 <= i < after.len() && (#[trigger] after[i]).0@ == key;
                lemma_entries_map_at(after, i);
                lemma_entries_map_at(before, i);
                if i != at as int {
                    assert(after[i] == before[i]);
                    if i < at as int {
                        assert(after[i].0@ != after[at as int].0@);
                    } else {
                        assert(after[at as int].0@ != after[i].0@);
                    }
                }
            }
            assert(left =~= right);
        },
    }
}

} // verus!
