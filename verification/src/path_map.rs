use vstd::prelude::*;

use crate::path::{paths_equal, PathModel};

verus! {

/// The key of an entry, as the contracts see it.
pub open spec fn entry_key<V>(entry: (Vec<String>, V)) -> PathModel {
    entry.0.deep_view()
}

/// The map that a list of entries stands for; a later entry wins over an earlier one.
pub open spec fn entries_map<V>(entries: Seq<(Vec<String>, V)>) -> Map<PathModel, V>
    decreases entries.len(),
{
    if entries.len() == 0 {
        Map::empty()
    } else {
        entries_map(entries.drop_last()).insert(
            entry_key(entries.last()),
            entries.last().1,
        )
    }
}

/// No two entries share a key.
pub open spec fn keys_distinct<V>(entries: Seq<(Vec<String>, V)>) -> bool {
    forall|i: int, j: int|
        0 <= i < j < entries.len() ==> entry_key(#[trigger] entries[i]) != entry_key(
            #[trigger] entries[j],
        )
}

/// A key is in the map exactly when some entry carries it.
pub proof fn lemma_entries_map_dom<V>(entries: Seq<(Vec<String>, V)>, key: PathModel)
    ensures
        entries_map(entries).dom().contains(key) <==> exists|i: int|
            0 <= i < entries.len() && entry_key(#[trigger] entries[i]) == key,
    decreases entries.len(),
{
    if entries.len() > 0 {
        let rest = entries.drop_last();
        lemma_entries_map_dom(rest, key);
        if entries_map(entries).dom().contains(key) {
            if entry_key(entries.last()) == key {
                assert(entry_key(entries[entries.len() - 1]) == key);
            } else {
                let i = choose|i: int| 0 <= i < rest.len() && entry_key(#[trigger] rest[i]) == key;
                assert(entries[i] == rest[i]);
            }
        }
        if exists|i: int| 0 <= i < entries.len() && entry_key(#[trigger] entries[i]) == key {
            let i = choose|i: int| 0 <= i < entries.len() && entry_key(#[trigger] entries[i]) == key;
            if i < entries.len() - 1 {
                assert(rest[i] == entries[i]);
            }
        }
    }
}

/// With distinct keys, an entry's key maps to that entry's value.
pub proof fn lemma_entries_map_index<V>(entries: Seq<(Vec<String>, V)>, i: int)
    requires
        keys_distinct(entries),
        0 <= i < entries.len(),
    ensures
        entries_map(entries).dom().contains(entry_key(entries[i])),
        entries_map(entries)[entry_key(entries[i])] == entries[i].1,
    decreases entries.len(),
{
    let rest = entries.drop_last();
    if i < entries.len() - 1 {
        assert(rest[i] == entries[i]);
        assert(keys_distinct(rest)) by {
            assert forall|a: int, b: int| 0 <= a < b < rest.len() implies entry_key(
                #[trigger] rest[a],
            ) != entry_key(#[trigger] rest[b]) by {
                assert(rest[a] == entries[a] && rest[b] == entries[b]);
            }
        }
        lemma_entries_map_index(rest, i);
        assert(entry_key(entries[i]) != entry_key(entries[entries.len() - 1]));
    }
}

proof fn lemma_distinct_drop_last<V>(entries: Seq<(Vec<String>, V)>)
    requires
        keys_distinct(entries),
        entries.len() > 0,
    ensures
        keys_distinct(entries.drop_last()),
{
    let rest = entries.drop_last();
    assert forall|a: int, b: int| 0 <= a < b < rest.len() implies entry_key(#[trigger] rest[a])
        != entry_key(#[trigger] rest[b]) by {
        assert(rest[a] == entries[a] && rest[b] == entries[b]);
    }
}

/// Replacing an entry by one with the same key updates that key's value.
pub proof fn lemma_entries_map_update<V>(
    entries: Seq<(Vec<String>, V)>,
    i: int,
    entry: (Vec<String>, V),
)
    requires
        keys_distinct(entries),
        0 <= i < entries.len(),
        entry_key(entry) == entry_key(entries[i]),
    ensures
        entries_map(entries.update(i, entry)) == entries_map(entries).insert(
            entry_key(entry),
            entry.1,
        ),
    decreases entries.len(),
{
    let updated = entries.update(i, entry);
    let rest = entries.drop_last();
    let last = entries.len() - 1;
    if i == last {
        assert(updated.drop_last() =~= rest);
        assert(entries_map(updated) =~= entries_map(entries).insert(entry_key(entry), entry.1));
    } else {
        lemma_distinct_drop_last(entries);
        assert(rest[i] == entries[i]);
        lemma_entries_map_update(rest, i, entry);
        assert(updated.drop_last() =~= rest.update(i, entry));
        assert(updated.last() == entries.last());
        assert(entry_key(entries[i]) != entry_key(entries[last]));
        assert(entries_map(updated) =~= entries_map(entries).insert(entry_key(entry), entry.1));
    }
}

/// Removing an entry removes its key.
pub proof fn lemma_entries_map_remove<V>(entries: Seq<(Vec<String>, V)>, i: int)
    requires
        keys_distinct(entries),
        0 <= i < entries.len(),
    ensures
        entries_map(entries.remove(i)) == entries_map(entries).remove(entry_key(entries[i])),
    decreases entries.len(),
{
    let removed = entries.remove(i);
    let rest = entries.drop_last();
    let last = entries.len() - 1;
    lemma_distinct_drop_last(entries);
    if i == last {
        assert(removed =~= rest);
        lemma_entries_map_dom(rest, entry_key(entries[i]));
        if entries_map(rest).dom().contains(entry_key(entries[i])) {
            let j = choose|j: int|
                0 <= j < rest.len() && entry_key(#[trigger] rest[j]) == entry_key(entries[i]);
            assert(rest[j] == entries[j]);
        }
        assert(entries_map(removed) =~= entries_map(entries).remove(entry_key(entries[i])));
    } else {
        assert(rest[i] == entries[i]);
        lemma_entries_map_remove(rest, i);
        assert(removed.drop_last() =~= rest.remove(i));
        assert(removed.last() == entries.last());
        assert(entry_key(entries[i]) != entry_key(entries[last]));
        assert(entries_map(removed) =~= entries_map(entries).remove(entry_key(entries[i])));
    }
}

/// A map keyed by widget paths, standing in for a hash map: paths are compared
/// segment by segment, and each path occurs at most once.
pub struct PathMap<V> {
    entries: Vec<(Vec<String>, V)>,
}

impl<V> PathMap<V> {
    #[verifier::type_invariant]
    spec fn well_formed(self) -> bool {
        keys_distinct(self.entries@)
    }

    /// The contents as a map from paths to values.
    pub closed spec fn contents(self) -> Map<PathModel, V> {
        entries_map(self.entries@)
    }
}

impl<V> View for PathMap<V> {
    type V = Map<PathModel, V>;

    open spec fn view(&self) -> Map<PathModel, V> {
        self.contents()
    }
}

impl<V> PathMap<V> {
    /// An empty map.
    pub fn new() -> (map: Self)
        ensures
            map@ == Map::<PathModel, V>::empty(),
    {
        PathMap { entries: Vec::new() }
    }

    fn index_of(&self, path: &Vec<String>) -> (found: Option<usize>)
        ensures
            match found {
                Some(i) => i < self.entries@.len() && entry_key(self.entries@[i as int])
                    == path.deep_view(),
                None => !self@.dom().contains(path.deep_view()),
            },
    {
        let n = self.entries.len();
        for i in 0..n
            invariant
                n == self.entries@.len(),
                forall|j: int|
                    0 <= j < i ==> entry_key(#[trigger] self.entries@[j]) != path.deep_view(),
        {
            if paths_equal(&self.entries[i].0, path) {
                return Some(i);
            }
        }
        proof {
            lemma_entries_map_dom(self.entries@, path.deep_view());
        }
        None
    }

    /// Whether a value is stored under `path`.
    pub fn contains_key(&self, path: &Vec<String>) -> (found: bool)
        ensures
            found == self@.dom().contains(path.deep_view()),
    {
        proof {
            use_type_invariant(self);
        }
        match self.index_of(path) {
            Some(i) => {
                proof {
                    lemma_entries_map_index(self.entries@, i as int);
                }
                true
            },
            None => false,
        }
    }

    /// The value stored under `path`, if any.
    pub fn get(&self, path: &Vec<String>) -> (value: Option<&V>)
        ensures
            match value {
                Some(v) => self@.dom().contains(path.deep_view()) && *v == self@[path.deep_view()],
                None => !self@.dom().contains(path.deep_view()),
            },
    {
        proof {
            use_type_invariant(self);
        }
        match self.index_of(path) {
            Some(i) => {
                proof {
                    lemma_entries_map_index(self.entries@, i as int);
                }
                Some(&self.entries[i].1)
            },
            None => None,
        }
    }

    /// Stores `value` under `path`, replacing what was stored there.
    pub fn insert(&mut self, path: Vec<String>, value: V)
        ensures
            final(self)@ == old(self)@.insert(path.deep_view(), value),
    {
        proof {
            use_type_invariant(&*self);
        }
        let ghost key = path.deep_view();
        match self.index_of(&path) {
            Some(i) => {
                proof {
                    lemma_entries_map_update(self.entries@, i as int, (path, value));
                }
                let mut entries = Vec::new();
                std::mem::swap(&mut entries, &mut self.entries);
                entries.set(i, (path, value));
                self.entries = entries;
            },
            None => {
                proof {
                    lemma_entries_map_dom(self.entries@, key);
                }
                let mut entries = Vec::new();
                std::mem::swap(&mut entries, &mut self.entries);
                let ghost before = entries@;
                entries.push((path, value));
                assert(entries@.drop_last() =~= before);
                self.entries = entries;
            },
        }
    }

    /// Takes out the value stored under `path`, if any.
    pub fn remove(&mut self, path: &Vec<String>) -> (value: Option<V>)
        ensures
            final(self)@ == old(self)@.remove(path.deep_view()),
            match value {
                Some(v) => old(self)@.dom().contains(path.deep_view()) && v == old(
                    self,
                )@[path.deep_view()],
                None => !old(self)@.dom().contains(path.deep_view()),
            },
    {
        proof {
            use_type_invariant(&*self);
        }
        match self.index_of(path) {
            Some(i) => {
                proof {
                    lemma_entries_map_index(self.entries@, i as int);
                    lemma_entries_map_remove(self.entries@, i as int);
                }
                let mut entries = Vec::new();
                std::mem::swap(&mut entries, &mut self.entries);
                let entry = entries.remove(i);
                self.entries = entries;
                Some(entry.1)
            },
            None => {
                assert(old(self)@.remove(path.deep_view()) =~= old(self)@);
                None
            },
        }
    }
}

} // verus!
