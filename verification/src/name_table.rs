//! Tables keyed by name, described by what they hold.

use vstd::prelude::*;
use crate::text::same_text;

verus! {

struct Named<T> {
    name: String,
    value: T,
}

/// What a run of named values maps each name to: the last value under it.
spec fn named_map<T: View>(entries: Seq<Named<T>>) -> Map<Seq<char>, T::V>
    decreases entries.len(),
{
    if entries.len() == 0 {
        Map::empty()
    } else {
        named_map(entries.drop_last()).insert(entries.last().name@, entries.last().value@)
    }
}

/// A map from names to values, seen as the map from names to the values' views.
pub struct NameTable<T> {
    entries: Vec<Named<T>>,
}

impl<T: View> View for NameTable<T> {
    type V = Map<Seq<char>, T::V>;

    closed spec fn view(&self) -> Map<Seq<char>, T::V> {
        named_map(self.entries@)
    }
}

/// A name maps to nothing where no entry has it, and to the last entry that has it.
proof fn lemma_named_map<T: View>(entries: Seq<Named<T>>, name: Seq<char>, i: int)
    requires
        -1 <= i < entries.len(),
        forall|j: int| i < j < entries.len() ==> (#[trigger] entries[j]).name@ != name,
        i >= 0 ==> entries[i].name@ == name,
    ensures
        named_map(entries).contains_key(name) == (i >= 0),
        i >= 0 ==> named_map(entries)[name] == entries[i].value@,
    decreases entries.len(),
{
    if entries.len() > 0 {
        let last = entries.len() - 1;
        if i < last {
            assert(entries[last].name@ != name);
            assert forall|j: int| i < j < entries.drop_last().len() implies (
            #[trigger] entries.drop_last()[j]).name@ != name by {
                assert(entries[j].name@ != name);
            }
            lemma_named_map(entries.drop_last(), name, i);
        }
    }
}

impl<T: View> NameTable<T> {
    /// The table without entries.
    pub fn new() -> (table: Self)
        ensures
            table@ == Map::<Seq<char>, T::V>::empty(),
    {
        NameTable { entries: Vec::new() }
    }

    fn find(&self, name: &str) -> (index: Option<usize>)
        ensures
            match index {
                Some(i) => i < self.entries@.len() && self@.contains_key(name@) && self@[name@]
                    == self.entries@[i as int].value@,
                None => !self@.contains_key(name@),
            },
    {
        let mut i: usize = self.entries.len();
        while i > 0
            invariant
                i <= self.entries@.len(),
                forall|j: int| i <= j < self.entries@.len() ==> (#[trigger] self.entries@[j]).name@
                    != name@,
            decreases i,
        {
            i -= 1;
            if same_text(self.entries[i].name.as_str(), name) {
                proof {
                    lemma_named_map(self.entries@, name@, i as int);
                }
                return Some(i);
            }
        }
        proof {
            lemma_named_map(self.entries@, name@, -1);
        }
        None
    }

    /// Whether `name` has an entry.
    pub fn contains_key(&self, name: &str) -> (known: bool)
        ensures
            known == self@.contains_key(name@),
    {
        self.find(name).is_some()
    }

    /// The entry of `name`.
    pub fn get(&self, name: &str) -> (entry: Option<&T>)
        ensures
            match entry {
                Some(value) => self@.contains_key(name@) && value@ == self@[name@],
                None => !self@.contains_key(name@),
            },
    {
        match self.find(name) {
            Some(i) => Some(&self.entries[i].value),
            None => None,
        }
    }

    /// Take the entry of `name` out.
    pub fn remove(&mut self, name: &str) -> (entry: Option<T>)
        ensures
            final(self)@ == old(self)@.remove(name@),
            match entry {
                Some(value) => old(self)@.contains_key(name@) && value@ == old(self)@[name@],
                None => !old(self)@.contains_key(name@),
            },
    {
        let mut entries: Vec<Named<T>> = Vec::new();
        core::mem::swap(&mut entries, &mut self.entries);
        let ghost all = entries@;
        let mut removed: Option<T> = None;
        assert(named_map(all.take(0)) =~= Map::empty());
        assert(named_map(self.entries@) =~= Map::<Seq<char>, T::V>::empty().remove(name@));
        for entry in it: entries
            invariant
                it.seq() == all,
                named_map(self.entries@) == named_map(all.take(it.index() as int)).remove(name@),
                match removed {
                    Some(value) => named_map(all.take(it.index() as int)).contains_key(name@)
                        && value@ == named_map(all.take(it.index() as int))[name@],
                    None => !named_map(all.take(it.index() as int)).contains_key(name@),
                },
        {
            let ghost index = it.index() as int;
            assert(entry == all[index]);
            assert(all.take(index + 1).drop_last() =~= all.take(index));
            let ghost kept = self.entries@;
            if same_text(entry.name.as_str(), name) {
                removed = Some(entry.value);
            } else {
                self.entries.push(entry);
                assert(self.entries@.drop_last() =~= kept);
            }
            assert(named_map(self.entries@) =~= named_map(all.take(index + 1)).remove(name@));
        }
        assert(all.take(all.len() as int) =~= all);
        removed
    }

    /// Set the entry of `name`, replacing one it had.
    pub fn insert(&mut self, name: String, value: T)
        ensures
            final(self)@ == old(self)@.insert(name@, value@),
    {
        let _ = self.remove(name.as_str());
        let ghost before = self.entries@;
        self.entries.push(Named { name, value });
        assert(self.entries@.drop_last() =~= before);
        assert(self@ =~= old(self)@.insert(name@, value@));
    }
}

} // verus!
