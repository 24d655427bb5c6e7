use crate::adapters::same_name;
use vstd::prelude::*;

verus! {

/// What the first `n` entries say: a later entry replaces an earlier one under
/// the same name.
pub open spec fn entries_among<T>(entries: Seq<(String, T)>, n: nat) -> Map<Seq<char>, T>
    decreases n,
{
    if n == 0 || n > entries.len() {
        Map::empty()
    } else {
        entries_among(entries, (n - 1) as nat).insert(entries[n - 1].0@, entries[n - 1].1)
    }
}

/// A name that no entry from `from` on carries has the value that the entries
/// before `from` give it.
proof fn lemma_entries_skip<T>(entries: Seq<(String, T)>, from: nat, n: nat, name: Seq<char>)
    requires
        from <= n <= entries.len(),
        forall|j: int| from <= j < n ==> (#[trigger] entries[j]).0@ != name,
    ensures
        entries_among(entries, n).contains_key(name) == entries_among(entries, from).contains_key(
            name,
        ),
        entries_among(entries, n).contains_key(name) ==> entries_among(entries, n)[name]
            == entries_among(entries, from)[name],
    decreases n,
{
    if n > from {
        lemma_entries_skip(entries, from, (n - 1) as nat, name);
    }
}

/// What the first `n` entries say does not depend on the entries after them.
proof fn lemma_entries_prefix<T>(short: Seq<(String, T)>, long: Seq<(String, T)>, n: nat)
    requires
        n <= short.len() <= long.len(),
        forall|j: int| 0 <= j < short.len() ==> short[j] == long[j],
    ensures
        entries_among(short, n) == entries_among(long, n),
    decreases n,
{
    if n > 0 {
        lemma_entries_prefix(short, long, (n - 1) as nat);
    }
}

/// Values by name.
pub struct NameMap<T> {
    entries: Vec<(String, T)>,
}

impl<T> View for NameMap<T> {
    type V = Map<Seq<char>, T>;

    closed spec fn view(&self) -> Map<Seq<char>, T> {
        entries_among(self.entries@, self.entries@.len())
    }
}

impl<T> NameMap<T> {
    /// A map without names.
    pub fn new() -> (map: NameMap<T>)
        ensures
            map@ == Map::<Seq<char>, T>::empty(),
    {
        NameMap { entries: Vec::new() }
    }

    /// Puts `value` under `name`, in place of what was there.
    pub fn insert(&mut self, name: String, value: T)
        ensures
            final(self)@ == old(self)@.insert(name@, value),
    {
        self.entries.push((name, value));
        proof {
            lemma_entries_prefix(old(self).entries@, self.entries@, old(self).entries@.len());
        }
    }

    /// The entries in the order in which they were put; a later one replaces an
    /// earlier one under the same name.
    pub fn entries(&self) -> (all: &Vec<(String, T)>)
        ensures
            entries_among(all@, all@.len()) == self@,
    {
        &self.entries
    }

    /// What stands under `name`, if anything does.
    pub fn get(&self, name: &str) -> (found: Option<&T>)
        ensures
            found == (if self@.contains_key(name@) {
                Some(&self@[name@])
            } else {
                None
            }),
    {
        let mut i: usize = self.entries.len();
        while i > 0
            invariant
                i <= self.entries@.len(),
                forall|j: int|
                    i <= j < self.entries@.len() ==> (#[trigger] self.entries@[j]).0@ != name@,
            decreases i,
        {
            i = i - 1;
            if same_name(self.entries[i].0.as_str(), name) {
                proof {
                    lemma_entries_skip(
                        self.entries@,
                        (i + 1) as nat,
                        self.entries@.len(),
                        name@,
                    );
                }
                return Some(&self.entries[i].1);
            }
        }
        proof {
            lemma_entries_skip(self.entries@, 0, self.entries@.len(), name@);
        }
        None
    }
}

} // verus!
