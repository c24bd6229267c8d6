//! The index of the projects on a machine.

use crate::clock::{now, Timestamp};
use crate::text::str_eq;
use vstd::prelude::*;

verus! {

/// One project: where it lies, what it is called, and when it was added.
#[derive(Debug, Clone, PartialEq)]
pub struct IndexEntry {
    pub path: String,
    pub name: String,
    pub added_at: Timestamp,
}

/// The projects known on a machine, each path once.
#[derive(Debug, Clone, PartialEq)]
pub struct GlobalIndex {
    pub projects: Vec<IndexEntry>,
}

#[verifier::ext_equal]
pub struct IndexEntryView {
    pub path: Seq<char>,
    pub name: Seq<char>,
    pub added_at: Timestamp,
}

impl View for IndexEntry {
    type V = IndexEntryView;

    open spec fn view(&self) -> IndexEntryView {
        IndexEntryView { path: self.path@, name: self.name@, added_at: self.added_at }
    }
}

impl View for GlobalIndex {
    type V = Seq<IndexEntryView>;

    open spec fn view(&self) -> Seq<IndexEntryView> {
        self.projects@.map_values(|e: IndexEntry| e@)
    }
}

/// The entry for a project at `path` called `name`, added at `at`.
pub open spec fn entry(path: Seq<char>, name: Seq<char>, at: Timestamp) -> IndexEntryView {
    IndexEntryView { path, name, added_at: at }
}

/// Some project of the index lies at `path`.
pub open spec fn has_path(projects: Seq<IndexEntryView>, path: Seq<char>) -> bool {
    exists|i: int| 0 <= i < projects.len() && (#[trigger] projects[i]).path == path
}

/// The projects that do not lie at `path`.
pub open spec fn without_path(projects: Seq<IndexEntryView>, path: Seq<char>) -> Seq<
    IndexEntryView,
> {
    projects.filter(|e: IndexEntryView| e.path != path)
}

impl Default for GlobalIndex {
    fn default() -> (index: GlobalIndex)
        ensures
            index@ == Seq::<IndexEntryView>::empty(),
    {
        let index = GlobalIndex { projects: Vec::new() };
        assert(index@ =~= Seq::<IndexEntryView>::empty());
        index
    }
}

impl GlobalIndex {
    /// Whether a project of the index lies at `path`.
    pub fn contains(&self, path: &str) -> (r: bool)
        ensures
            r == has_path(self@, path@),
    {
        let mut i: usize = 0;
        while i < self.projects.len()
            invariant
                i <= self.projects.len(),
                forall|j: int| 0 <= j < i ==> (#[trigger] self@[j]).path != path@,
            decreases self.projects.len() - i,
        {
            if str_eq(self.projects[i].path.as_str(), path) {
                assert(self@[i as int].path == path@);
                return true;
            }
            i += 1;
        }
        false
    }

    /// Adds the project at `path` under `name`, as added at `at`, unless the
    /// index has a project at that path already.
    pub fn add_at(&mut self, path: &str, name: &str, at: Timestamp)
        ensures
            final(self)@ == if has_path(old(self)@, path@) {
                old(self)@
            } else {
                old(self)@.push(entry(path@, name@, at))
            },
    {
        if !self.contains(path) {
            self.projects.push(
                IndexEntry { path: path.to_owned(), name: name.to_owned(), added_at: at },
            );
            assert(self@ =~= old(self)@.push(
                IndexEntryView { path: path@, name: name@, added_at: at },
            ));
        }
    }

    /// Adds the project at `path` under `name`, as added now, unless the
    /// index has a project at that path already.
    pub fn add(&mut self, path: &str, name: &str)
        ensures
            has_path(old(self)@, path@) ==> final(self)@ == old(self)@,
            !has_path(old(self)@, path@) ==> exists|at: Timestamp|
                final(self)@ == old(self)@.push(#[trigger] entry(path@, name@, at)),
    {
        let at = now();
        self.add_at(path, name, at);
    }

    /// Takes every project at `path` out of the index.
    pub fn remove(&mut self, path: &str)
        ensures
            final(self)@ == without_path(old(self)@, path@),
    {
        let ghost keep = |e: IndexEntryView| e.path != path@;
        let ghost before = self@;
        let mut rest: Vec<IndexEntry> = Vec::new();
        core::mem::swap(&mut self.projects, &mut rest);
        proof {
            reveal(Seq::filter);
            assert(before.take(0).filter(keep) =~= Seq::<IndexEntryView>::empty());
            assert(self@ =~= Seq::<IndexEntryView>::empty());
        }
        for entry in it: rest
            invariant
                keep == (|e: IndexEntryView| e.path != path@),
                it.seq().map_values(|e: IndexEntry| e@) == before,
                self@ == before.take(it.index()).filter(keep),
        {
            proof {
                let i = it.index();
                assert(before[i] == it.seq()[i]@);
                assert(before.take(i + 1) =~= before.take(i).push(entry@));
                before.take(i).lemma_filter_push(entry@, keep);
            }
            if !str_eq(entry.path.as_str(), path) {
                let ghost mid = self@;
                self.projects.push(entry);
                assert(self@ =~= mid.push(entry@));
            }
        }
        assert(before.take(before.len() as int) =~= before);
    }
}

} // verus!
