//! The variables of a template: names with their replacement texts.

use vstd::prelude::*;
use crate::text::{lemma_first_index, lemma_no_index};

verus! {

/// A name with its replacement text.
pub type Entry = (Seq<char>, Seq<char>);

/// The names of `entries`, in their order.
pub open spec fn keys_of(entries: Seq<Entry>) -> Seq<Seq<char>> {
    entries.map_values(|e: Entry| e.0)
}

/// No name stands twice in `entries`.
pub open spec fn distinct_keys(entries: Seq<Entry>) -> bool {
    keys_of(entries).no_duplicates()
}

/// Where `key` stands in `entries`.
pub open spec fn key_position(entries: Seq<Entry>, key: Seq<char>) -> Option<int> {
    keys_of(entries).index_of_first(key)
}

/// The replacement text that `entries` hold for `key`.
pub open spec fn lookup(entries: Seq<Entry>, key: Seq<char>) -> Option<Seq<char>> {
    match key_position(entries, key) {
        Some(i) => Some(entries[i].1),
        None => None,
    }
}

/// `entries` with `key` set to `value`: a name that is present keeps its
/// place and loses its former text, a new name goes to the end.
pub open spec fn entries_insert(entries: Seq<Entry>, key: Seq<char>, value: Seq<char>) -> Seq<
    Entry,
> {
    match key_position(entries, key) {
        Some(i) => entries.update(i, (key, value)),
        None => entries.push((key, value)),
    }
}

/// Setting a name keeps the names distinct.
pub proof fn lemma_insert_distinct(entries: Seq<Entry>, key: Seq<char>, value: Seq<char>)
    requires
        distinct_keys(entries),
    ensures
        distinct_keys(entries_insert(entries, key, value)),
{
    let keys = keys_of(entries);
    let after = entries_insert(entries, key, value);
    keys.index_of_first_ensures(key);
    match key_position(entries, key) {
        Some(i) => {
            assert(keys_of(after) =~= keys);
        },
        None => {
            assert(keys_of(after) =~= keys.push(key));
            assert forall|a: int, b: int|
                0 <= a < keys.push(key).len() && 0 <= b < keys.push(key).len() && a != b implies keys.push(
                key,
            )[a] != keys.push(key)[b] by {
                if a < keys.len() {
                    assert(keys.contains(keys[a]));
                }
                if b < keys.len() {
                    assert(keys.contains(keys[b]));
                }
            }
        },
    }
}

/// The variables of a template, in the order in which their names first
/// came. No name stands twice.
pub struct VariableMap {
    entries: Vec<(String, String)>,
}

/// What a vector of pairs of strings holds, as character sequences.
pub open spec fn entries_view(pairs: Seq<(String, String)>) -> Seq<Entry> {
    pairs.map_values(|p: (String, String)| (p.0@, p.1@))
}

impl View for VariableMap {
    type V = Seq<Entry>;

    closed spec fn view(&self) -> Seq<Entry> {
        entries_view(self.entries@)
    }
}

impl VariableMap {
    #[verifier::type_invariant]
    spec fn well_formed(&self) -> bool {
        distinct_keys(self@)
    }

    /// No variables.
    pub fn new() -> (vars: VariableMap)
        ensures
            vars@ == Seq::<Entry>::empty(),
    {
        let entries: Vec<(String, String)> = Vec::new();
        assert(entries_view(entries@) =~= Seq::<Entry>::empty());
        assert(keys_of(entries_view(entries@)) =~= Seq::<Seq<char>>::empty());
        VariableMap { entries }
    }

    /// How many variables there are.
    pub fn len(&self) -> (n: usize)
        ensures
            n == self@.len(),
            distinct_keys(self@),
    {
        proof {
            use_type_invariant(self);
        }
        self.entries.len()
    }

    /// Whether there are no variables.
    pub fn is_empty(&self) -> (empty: bool)
        ensures
            empty == (self@.len() == 0),
    {
        self.entries.len() == 0
    }

    /// The name of the variable at index `i`.
    pub fn key_at(&self, i: usize) -> (key: &String)
        requires
            i < self@.len(),
        ensures
            key@ == self@[i as int].0,
    {
        &self.entries[i].0
    }

    /// The replacement text of the variable at index `i`.
    pub fn value_at(&self, i: usize) -> (value: &String)
        requires
            i < self@.len(),
        ensures
            value@ == self@[i as int].1,
    {
        &self.entries[i].1
    }

    /// Where the variable named `key` stands.
    pub fn position(&self, key: &str) -> (at: Option<usize>)
        ensures
            match key_position(self@, key@) {
                Some(i) => at matches Some(k) && k == i && 0 <= i < self@.len(),
                None => at is None,
            },
    {
        position_in(&self.entries, key)
    }

    /// The replacement text of the variable named `key`.
    pub fn get(&self, key: &str) -> (value: Option<&String>)
        ensures
            match lookup(self@, key@) {
                Some(text) => value matches Some(found) && found@ == text,
                None => value is None,
            },
    {
        match self.position(key) {
            Some(i) => {
                assert(self@[i as int].1 == self.entries@[i as int].1@);
                Some(&self.entries[i].1)
            },
            None => None,
        }
    }

    /// Sets the variable named `key` to `value`. A name that is present keeps
    /// its place and loses its former text; a new name goes to the end.
    pub fn insert(&mut self, key: String, value: String)
        ensures
            final(self)@ == entries_insert(old(self)@, key@, value@),
    {
        proof {
            use_type_invariant(&*self);
            lemma_insert_distinct(self@, key@, value@);
        }
        let mut entries: Vec<(String, String)> = Vec::new();
        assert(keys_of(entries_view(entries@)) =~= Seq::<Seq<char>>::empty());
        std::mem::swap(&mut self.entries, &mut entries);
        let ghost before = entries@;
        assert(entries_view(before) == old(self)@);
        match position_in(&entries, key.as_str()) {
            Some(i) => {
                entries.set(i, (key, value));
                assert(entries_view(entries@) =~= entries_view(before).update(
                    i as int,
                    (key@, value@),
                ));
            },
            None => {
                entries.push((key, value));
                assert(entries_view(entries@) =~= entries_view(before).push((key@, value@)));
            },
        }
        assert(entries_view(entries@) == entries_insert(old(self)@, key@, value@));
        std::mem::swap(&mut self.entries, &mut entries);
    }
}

/// Where the pair named `key` stands in `pairs`.
fn position_in(pairs: &Vec<(String, String)>, key: &str) -> (at: Option<usize>)
    ensures
        match key_position(entries_view(pairs@), key@) {
            Some(i) => at matches Some(k) && k == i && 0 <= i < pairs@.len(),
            None => at is None,
        },
{
    let name = key.to_owned();
    let ghost keys = keys_of(entries_view(pairs@));
    let mut i: usize = 0;
    while i < pairs.len()
        invariant
            i <= pairs@.len(),
            name@ == key@,
            keys == keys_of(entries_view(pairs@)),
            forall|j: int| 0 <= j < i ==> keys[j] != key@,
        decreases pairs@.len() - i,
    {
        if pairs[i].0 == name {
            proof {
                lemma_first_index(keys, key@, i as int);
            }
            return Some(i);
        }
        i += 1;
    }
    proof {
        lemma_no_index(keys, key@);
    }
    None
}

} // verus!
