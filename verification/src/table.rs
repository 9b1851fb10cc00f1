//! A table from names to values: the variables that parameter expansion reads,
//! and the home directories that tilde expansion reads.

use vstd::prelude::*;
use crate::text::{chars_of, same_chars, string_of};

verus! {

struct Entry {
    name: Vec<char>,
    value: Vec<char>,
}

/// Names with their values. A name has at most one value: the one that was
/// inserted last.
pub struct Table {
    entries: Vec<Entry>,
}

/// The map that a list of entries stands for; a later entry for a name
/// replaces an earlier one.
spec fn map_of(entries: Seq<Entry>) -> Map<Seq<char>, Seq<char>>
    decreases entries.len(),
{
    if entries.len() == 0 {
        Map::empty()
    } else {
        map_of(entries.drop_last()).insert(entries.last().name@, entries.last().value@)
    }
}

/// A name that no entry carries is not in the map.
proof fn lemma_absent(entries: Seq<Entry>, name: Seq<char>)
    requires
        forall|j: int| 0 <= j < entries.len() ==> entries[j].name@ != name,
    ensures
        !map_of(entries).contains_key(name),
    decreases entries.len(),
{
    if entries.len() > 0 {
        lemma_absent(entries.drop_last(), name);
    }
}

/// The last entry that carries a name gives its value.
proof fn lemma_last_match(entries: Seq<Entry>, name: Seq<char>, at: int)
    requires
        0 <= at < entries.len(),
        entries[at].name@ == name,
        forall|j: int| at < j < entries.len() ==> entries[j].name@ != name,
    ensures
        map_of(entries).contains_key(name),
        map_of(entries)[name] == entries[at].value@,
    decreases entries.len(),
{
    if at < entries.len() - 1 {
        lemma_last_match(entries.drop_last(), name, at);
    }
}

/// Replacing the value of the last entry that carries a name is an insert for
/// that name.
proof fn lemma_replace(entries: Seq<Entry>, at: int, entry: Entry)
    requires
        0 <= at < entries.len(),
        entries[at].name@ == entry.name@,
        forall|j: int| at < j < entries.len() ==> entries[j].name@ != entry.name@,
    ensures
        map_of(entries.update(at, entry)) == map_of(entries).insert(entry.name@, entry.value@),
    decreases entries.len(),
{
    let changed = entries.update(at, entry);
    if at == entries.len() - 1 {
        assert(changed.drop_last() == entries.drop_last());
        assert(map_of(changed) == map_of(entries.drop_last()).insert(
            entry.name@,
            entry.value@,
        ));
        assert(map_of(entries).insert(entry.name@, entry.value@) == map_of(
            entries.drop_last(),
        ).insert(entry.name@, entry.value@));
    } else {
        lemma_replace(entries.drop_last(), at, entry);
        assert(changed.drop_last() == entries.drop_last().update(at, entry));
        let last = entries.last();
        assert(changed.last() == last);
        assert(map_of(entries.drop_last()).insert(entry.name@, entry.value@).insert(
            last.name@,
            last.value@,
        ) == map_of(entries.drop_last()).insert(last.name@, last.value@).insert(
            entry.name@,
            entry.value@,
        ));
    }
}

impl View for Table {
    type V = Map<Seq<char>, Seq<char>>;

    closed spec fn view(&self) -> Map<Seq<char>, Seq<char>> {
        map_of(self.entries@)
    }
}

impl Table {
    /// A table without names.
    pub fn new() -> (table: Self)
        ensures
            table@ == Map::<Seq<char>, Seq<char>>::empty(),
    {
        Table { entries: Vec::new() }
    }

    /// The index of the last entry that carries `name`.
    fn position(&self, name: &[char]) -> (at: Option<usize>)
        ensures
            at is Some <==> self@.contains_key(name@),
            at matches Some(i) ==> i < self.entries.len() && self.entries[i as int].name@ == name@
                && self.entries[i as int].value@ == self@[name@],
            at matches Some(i) ==> forall|j: int|
                i < j < self.entries.len() ==> self.entries[j].name@ != name@,
    {
        let mut i: usize = self.entries.len();
        while i > 0
            invariant
                i <= self.entries.len(),
                forall|j: int| i <= j < self.entries.len() ==> self.entries[j].name@ != name@,
            decreases i,
        {
            i -= 1;
            if same_chars(self.entries[i].name.as_slice(), name) {
                proof {
                    lemma_last_match(self.entries@, name@, i as int);
                }
                return Some(i);
            }
        }
        proof {
            lemma_absent(self.entries@, name@);
        }
        None
    }

    /// The value of `name`, where the table has one.
    pub fn lookup(&self, name: &[char]) -> (value: Option<&Vec<char>>)
        ensures
            value is Some <==> self@.contains_key(name@),
            value matches Some(v) ==> v@ == self@[name@],
    {
        match self.position(name) {
            Some(i) => Some(&self.entries[i].value),
            None => None,
        }
    }

    /// Gives `name` the value `value`, in place of the one it had.
    pub fn set(&mut self, name: Vec<char>, value: Vec<char>)
        ensures
            final(self)@ == old(self)@.insert(name@, value@),
    {
        let entry = Entry { name, value };
        match self.position(entry.name.as_slice()) {
            Some(i) => {
                proof {
                    lemma_replace(self.entries@, i as int, entry);
                }
                self.entries[i] = entry;
            },
            None => {
                proof {
                    assert(self.entries@.push(entry).drop_last() == self.entries@);
                }
                self.entries.push(entry);
            },
        }
    }

    /// Gives `name` the value `value`, in place of the one it had.
    pub fn insert(&mut self, name: &str, value: &str)
        ensures
            final(self)@ == old(self)@.insert(name@, value@),
    {
        self.set(chars_of(name), chars_of(value));
    }

    /// The value of `name`, where the table has one.
    pub fn get(&self, name: &str) -> (value: Option<String>)
        ensures
            value is Some <==> self@.contains_key(name@),
            value matches Some(v) ==> v@ == self@[name@],
    {
        let key = chars_of(name);
        match self.lookup(key.as_slice()) {
            Some(found) => Some(string_of(found.as_slice())),
            None => None,
        }
    }

    /// Whether `name` has a value.
    pub fn contains(&self, name: &[char]) -> (known: bool)
        ensures
            known == self@.contains_key(name@),
    {
        self.position(name).is_some()
    }
}

} // verus!
