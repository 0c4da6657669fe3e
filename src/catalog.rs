use vstd::prelude::*;
use vstd::string::StringExecFns;
use crate::types::Project;

verus! {

/// A cataloged project and its access history.
#[derive(Clone, Debug)]
pub struct CatalogEntry {
    pub project: Project,
    /// How many accesses were recorded.
    pub access_count: u64,
    /// When the last access was recorded, in seconds since the Unix epoch.
    pub last_accessed: Option<i64>,
}

/// The known projects, at most one per path.
pub struct Catalog {
    pub entries: Vec<CatalogEntry>,
}

pub open spec fn entry_paths(entries: Seq<CatalogEntry>) -> Seq<Seq<char>> {
    entries.map_values(|e: CatalogEntry| e.project.path@)
}

impl Catalog {
    /// No path appears twice.
    pub open spec fn wf(&self) -> bool {
        entry_paths(self.entries@).no_duplicates()
    }

    pub open spec fn has_path(&self, path: Seq<char>) -> bool {
        entry_paths(self.entries@).contains(path)
    }

    /// An empty catalog.
    pub fn new() -> (r: Catalog)
        ensures
            r.wf(),
            r.entries@.len() == 0,
    {
        let r = Catalog { entries: Vec::new() };
        assert(entry_paths(r.entries@) =~= seq![]);
        r
    }

    /// The position of the entry for a path, if there is one.
    pub fn find(&self, path: &str) -> (r: Option<usize>)
        requires
            self.wf(),
        ensures
            r matches Some(i) ==> i < self.entries@.len() && self.entries@[i as int].project.path@
                == path@,
            r is None ==> !self.has_path(path@),
    {
        let target = String::from_str(path);
        let mut i: usize = 0;
        while i < self.entries.len()
            invariant
                i <= self.entries@.len(),
                target@ == path@,
                forall|j: int| 0 <= j < i ==> #[trigger] entry_paths(self.entries@)[j] != path@,
            decreases self.entries@.len() - i,
        {
            if self.entries[i].project.path.eq(&target) {
                return Some(i);
            }
            assert(entry_paths(self.entries@)[i as int] == self.entries@[i as int].project.path@);
            i += 1;
        }
        None
    }

    /// Whether a path is a cataloged project root.
    pub fn is_project_root(&self, path: &str) -> (r: bool)
        requires
            self.wf(),
        ensures
            r == self.has_path(path@),
    {
        match self.find(path) {
            Some(i) => {
                assert(entry_paths(self.entries@)[i as int] == path@);
                true
            },
            None => false,
        }
    }

    /// Insert a project, or replace the one at the same path: its type, indicators and scan time
    /// change together, its access history stays. No path appears twice afterwards.
    pub fn upsert_project(&mut self, project: Project)
        requires
            old(self).wf(),
        ensures
            final(self).wf(),
            old(self).has_path(project.path@) ==> exists|i: int|
                0 <= i < old(self).entries@.len() && old(self).entries@[i].project.path@
                    == project.path@ && final(self).entries@ == old(self).entries@.update(
                    i,
                    CatalogEntry {
                        project,
                        access_count: old(self).entries@[i].access_count,
                        last_accessed: old(self).entries@[i].last_accessed,
                    },
                ),
            !old(self).has_path(project.path@) ==> final(self).entries@ == old(self).entries@.push(
                CatalogEntry { project, access_count: 0, last_accessed: None },
            ),
    {
        let ghost p = project.path@;
        match self.find(project.path.as_str()) {
            Some(i) => {
                assert(entry_paths(old(self).entries@)[i as int] == p);
                let old_entry = self.entries.remove(i);
                let entry = CatalogEntry {
                    project,
                    access_count: old_entry.access_count,
                    last_accessed: old_entry.last_accessed,
                };
                self.entries.insert(i, entry);
                assert(self.entries@ =~= old(self).entries@.update(i as int, entry));
                assert(entry_paths(self.entries@) =~= entry_paths(old(self).entries@).update(
                    i as int,
                    p,
                ));
                assert(entry_paths(self.entries@).no_duplicates()) by {
                    let ps = entry_paths(self.entries@);
                    let os = entry_paths(old(self).entries@);
                    assert forall|a: int, b: int| 0 <= a < ps.len() && 0 <= b < ps.len() && a != b
                        implies ps[a] != ps[b] by {
                        if a != i && b != i {
                            assert(ps[a] == os[a] && ps[b] == os[b]);
                        } else if a == i {
                            assert(os[a] == p);
                            assert(ps[b] == os[b]);
                        } else {
                            assert(os[b] == p);
                            assert(ps[a] == os[a]);
                        }
                    }
                }
            },
            None => {
                let entry = CatalogEntry { project, access_count: 0, last_accessed: None };
                self.entries.push(entry);
                assert(entry_paths(self.entries@) =~= entry_paths(old(self).entries@).push(p));
                assert(entry_paths(self.entries@).no_duplicates()) by {
                    let ps = entry_paths(self.entries@);
                    let os = entry_paths(old(self).entries@);
                    assert forall|a: int, b: int| 0 <= a < ps.len() && 0 <= b < ps.len() && a != b
                        implies ps[a] != ps[b] by {
                        if a < os.len() && b < os.len() {
                            assert(ps[a] == os[a] && ps[b] == os[b]);
                        } else if a == os.len() {
                            assert(ps[b] == os[b]);
                            assert(os.contains(os[b]));
                        } else {
                            assert(ps[a] == os[a]);
                            assert(os.contains(os[a]));
                        }
                    }
                }
            },
        }
    }

    /// Record an access to a path. A cataloged path has its count raised by one (it stops at the
    /// largest count) and its last access set to `now`, and the answer is `true`; any other path
    /// leaves the catalog as it was, with no entry created, and the answer is `false`.
    pub fn record_access(&mut self, path: &str, now: i64) -> (r: bool)
        requires
            old(self).wf(),
        ensures
            final(self).wf(),
            r == old(self).has_path(path@),
            !r ==> final(self).entries@ == old(self).entries@,
            r ==> exists|i: int|
                0 <= i < old(self).entries@.len() && old(self).entries@[i].project.path@ == path@
                    && final(self).entries@ == old(self).entries@.update(
                    i,
                    CatalogEntry {
                        project: old(self).entries@[i].project,
                        access_count: if old(self).entries@[i].access_count < u64::MAX {
                            (old(self).entries@[i].access_count + 1) as u64
                        } else {
                            u64::MAX
                        },
                        last_accessed: Some(now),
                    },
                ),
    {
        match self.find(path) {
            Some(i) => {
                let old_entry = self.entries.remove(i);
                let count = if old_entry.access_count < u64::MAX {
                    old_entry.access_count + 1
                } else {
                    u64::MAX
                };
                let entry = CatalogEntry {
                    project: old_entry.project,
                    access_count: count,
                    last_accessed: Some(now),
                };
                self.entries.insert(i, entry);
                assert(self.entries@ =~= old(self).entries@.update(i as int, entry));
                assert(entry_paths(self.entries@) =~= entry_paths(old(self).entries@));
                assert(entry_paths(old(self).entries@)[i as int] == path@);
                true
            },
            None => false,
        }
    }

    /// The cataloged paths, in catalog order.
    pub fn all_projects(&self) -> (r: Vec<String>)
        ensures
            r@.map_values(|s: String| s@) == entry_paths(self.entries@),
    {
        let mut out: Vec<String> = Vec::new();
        let mut i: usize = 0;
        while i < self.entries.len()
            invariant
                i <= self.entries@.len(),
                out@.map_values(|s: String| s@) == entry_paths(self.entries@).take(i as int),
            decreases self.entries@.len() - i,
        {
            let ghost before = out@;
            out.push(self.entries[i].project.path.clone());
            assert(out@.map_values(|s: String| s@) =~= entry_paths(self.entries@).take(i as int + 1))
                by {
                assert(out@.map_values(|s: String| s@) =~= before.map_values(|s: String| s@).push(
                    self.entries@[i as int].project.path@,
                ));
            }
            i += 1;
        }
        assert(entry_paths(self.entries@).take(i as int) =~= entry_paths(self.entries@));
        out
    }
}

} // verus!
