//! The vault's directory: file names mapped to their size and blocks.

use vstd::prelude::*;

verus! {

/// Where a file's data lies.
#[derive(Clone)]
pub struct FileEntry {
    pub size: u64,
    pub blocks: Vec<u64>,
}

/// A file entry as plain values: its size and block indices.
pub open spec fn entry_view(e: FileEntry) -> (u64, Seq<u64>) {
    (e.size, e.blocks@)
}

/// The files of a vault, each name at most once.
pub struct Directory {
    entries: Vec<(String, FileEntry)>,
}

impl Directory {
    /// The entries, in insertion order.
    pub closed spec fn entries(&self) -> Seq<(Seq<char>, (u64, Seq<u64>))> {
        self.entries@.map_values(|e: (String, FileEntry)| (e.0@, entry_view(e.1)))
    }

    /// No name occurs twice.
    pub open spec fn wf(&self) -> bool {
        forall|i: int, j: int| 0 <= i < j < self.entries().len() ==> self.entries()[i].0 != self.entries()[j].0
    }

    /// The entry of a name, if any.
    pub open spec fn lookup(&self, name: Seq<char>) -> Option<(u64, Seq<u64>)> {
        if exists|i: int| 0 <= i < self.entries().len() && self.entries()[i].0 == name {
            let i = choose|i: int| 0 <= i < self.entries().len() && self.entries()[i].0 == name;
            Some(self.entries()[i].1)
        } else {
            None
        }
    }

    /// An empty directory.
    pub fn new() -> (d: Self)
        ensures
            d.wf(),
            d.entries().len() == 0,
            forall|n: Seq<char>| d.lookup(n) is None,
    {
        Directory { entries: Vec::new() }
    }

    /// The number of files.
    pub fn len(&self) -> (n: usize)
        ensures
            n == self.entries().len(),
    {
        self.entries.len()
    }

    fn find(&self, name: &String) -> (r: Option<usize>)
        requires
            self.wf(),
        ensures
            match r {
                Some(i) => i < self.entries().len() && self.entries()[i as int].0 == name@,
                None => forall|i: int| 0 <= i < self.entries().len() ==> self.entries()[i].0 != name@,
            },
    {
        let mut i: usize = 0;
        while i < self.entries.len()
            invariant
                i <= self.entries@.len(),
                forall|j: int| 0 <= j < i ==> self.entries()[j].0 != name@,
            decreases self.entries@.len() - i,
        {
            if self.entries[i].0 == *name {
                return Some(i);
            }
            i = i + 1;
        }
        None
    }

    /// The entry of `name`.
    pub fn get(&self, name: &String) -> (r: Option<&FileEntry>)
        requires
            self.wf(),
        ensures
            match r {
                Some(e) => self.lookup(name@) == Some(entry_view(*e)),
                None => self.lookup(name@) is None,
            },
    {
        match self.find(name) {
            Some(i) => {
                proof {
                    let k = choose|k: int| 0 <= k < self.entries().len() && self.entries()[k].0 == name@;
                    assert(k == i as int);
                }
                Some(&self.entries[i].1)
            },
            None => None,
        }
    }

    /// Adds `name`, or replaces its entry.
    pub fn insert(&mut self, name: String, entry: FileEntry)
        requires
            old(self).wf(),
        ensures
            final(self).wf(),
            final(self).lookup(name@) == Some(entry_view(entry)),
            forall|n: Seq<char>| n != name@ ==> final(self).lookup(n) == old(self).lookup(n),
            old(self).lookup(name@) is Some ==> final(self).entries().len() == old(self).entries().len(),
            old(self).lookup(name@) is None ==> final(self).entries().len() == old(self).entries().len() + 1,
    {
        let ghost old_entries = self.entries();
        match self.find(&name) {
            Some(i) => {
                let ghost nm = name@;
                self.entries.set(i, (name, entry));
                proof {
                    assert(self.entries() =~= old_entries.update(i as int, (nm, entry_view(entry))));
                    assert(self.entries()[i as int].0 == nm);
                    assert forall|a: int, b: int| 0 <= a < b < self.entries().len() implies self.entries()[a].0 != self.entries()[b].0 by {
                        assert(old_entries[a].0 != old_entries[b].0);
                    }
                    let k = choose|k: int| 0 <= k < self.entries().len() && self.entries()[k].0 == nm;
                    assert(k == i as int);
                    assert forall|n: Seq<char>| n != nm implies self.lookup(n) == old(self).lookup(n) by {
                        if exists|j: int| 0 <= j < old_entries.len() && old_entries[j].0 == n {
                            let j = choose|j: int| 0 <= j < old_entries.len() && old_entries[j].0 == n;
                            assert(self.entries()[j].0 == n);
                            let j2 = choose|j2: int| 0 <= j2 < self.entries().len() && self.entries()[j2].0 == n;
                            assert(j2 == j);
                        }
                        if exists|j: int| 0 <= j < self.entries().len() && self.entries()[j].0 == n {
                            let j = choose|j: int| 0 <= j < self.entries().len() && self.entries()[j].0 == n;
                            assert(old_entries[j].0 == n);
                        }
                    }
                }
            },
            None => {
                let ghost nm = name@;
                self.entries.push((name, entry));
                proof {
                    assert(self.entries() =~= old_entries.push((nm, entry_view(entry))));
                    assert(self.entries()[old_entries.len() as int].0 == nm);
                    assert forall|a: int, b: int| 0 <= a < b < self.entries().len() implies self.entries()[a].0 != self.entries()[b].0 by {
                        if b < old_entries.len() {
                            assert(old_entries[a].0 != old_entries[b].0);
                        } else {
                            assert(old_entries[a].0 != nm);
                        }
                    }
                    let k = choose|k: int| 0 <= k < self.entries().len() && self.entries()[k].0 == nm;
                    assert(k == old_entries.len());
                    assert forall|n: Seq<char>| n != nm implies self.lookup(n) == old(self).lookup(n) by {
                        if exists|j: int| 0 <= j < old_entries.len() && old_entries[j].0 == n {
                            let j = choose|j: int| 0 <= j < old_entries.len() && old_entries[j].0 == n;
                            assert(self.entries()[j].0 == n);
                        }
                        if exists|j: int| 0 <= j < self.entries().len() && self.entries()[j].0 == n {
                            let j = choose|j: int| 0 <= j < self.entries().len() && self.entries()[j].0 == n;
                            assert(j < old_entries.len());
                            assert(old_entries[j].0 == n);
                        }
                    }
                }
            },
        }
    }

    /// The file names, in insertion order.
    pub fn names(&self) -> (r: Vec<String>)
        ensures
            r@.len() == self.entries().len(),
            forall|i: int| 0 <= i < r@.len() ==> (#[trigger] r@[i])@ == self.entries()[i].0,
    {
        let mut r: Vec<String> = Vec::new();
        let mut i: usize = 0;
        while i < self.entries.len()
            invariant
                i <= self.entries@.len(),
                r@.len() == i,
                forall|j: int| 0 <= j < i ==> (#[trigger] r@[j])@ == self.entries()[j].0,
            decreases self.entries@.len() - i,
        {
            r.push(self.entries[i].0.clone());
            i = i + 1;
        }
        r
    }

    /// The entry at a position, for serialisation.
    pub fn entry_at(&self, i: usize) -> (r: (&String, &FileEntry))
        requires
            i < self.entries().len(),
        ensures
            r.0@ == self.entries()[i as int].0,
            entry_view(*r.1) == self.entries()[i as int].1,
    {
        (&self.entries[i].0, &self.entries[i].1)
    }
}

} // verus!
