//! The input of one run: the project root, its source files with their text,
//! and a snapshot of the tree used to answer existence and listing questions.

use vstd::prelude::*;
use crate::text::{same_text, views};
use crate::paths::{normalize, normalize_exec};

verus! {

/// A source file of the project and its text.
#[derive(Clone, Debug)]
pub struct SourceFile {
    pub path: String,
    pub content: String,
}

/// The files and directories present in the tree, each in normal form
/// (see `paths::normalize`), and the real paths of files whose spelling
/// goes through a symbolic link.
#[derive(Clone, Debug)]
pub struct FileTree {
    pub files: Vec<String>,
    pub dirs: Vec<String>,
    /// Pairs of a path in normal form and the canonical path it denotes,
    /// symbolic links resolved; the first pair for a path counts.
    pub canonical: Vec<(String, String)>,
}

/// The canonical path recorded for `q`: the first pair of `pairs` for it.
pub open spec fn recorded_canonical(pairs: Seq<(String, String)>, q: Seq<char>) -> Option<Seq<char>>
    decreases pairs.len(),
{
    if pairs.len() == 0 {
        None
    } else if pairs[0].0@ == q {
        Some(pairs[0].1@)
    } else {
        recorded_canonical(pairs.skip(1), q)
    }
}

pub open spec fn normal_forms(v: Seq<String>) -> Seq<Seq<char>> {
    v.map_values(|x: String| normalize(x@))
}

fn normalize_all(v: &Vec<String>) -> (r: Vec<String>)
    ensures
        views(r@) == normal_forms(v@),
{
    let mut r: Vec<String> = Vec::new();
    let mut i: usize = 0;
    while i < v.len()
        invariant
            i <= v@.len(),
            r@.len() == i,
            views(r@) == normal_forms(v@).take(i as int),
        decreases v@.len() - i,
    {
        let s = normalize_exec(v[i].as_str());
        let ghost prev = r@;
        r.push(s);
        assert(r@ == prev.push(s));
        assert forall|k: int| 0 <= k < i + 1 implies views(r@)[k] == normal_forms(v@)[k] by {
            if k < i {
                assert(views(prev)[k] == normal_forms(v@).take(i as int)[k]);
                assert(r@[k] == prev[k]);
            }
        }
        assert(views(r@) =~= normal_forms(v@).take(i + 1));
        i += 1;
    }
    assert(normal_forms(v@).take(v@.len() as int) =~= normal_forms(v@));
    r
}

fn contains_text(v: &Vec<String>, q: &str) -> (r: bool)
    ensures
        r == views(v@).contains(q@),
{
    let mut i: usize = 0;
    while i < v.len()
        invariant
            i <= v@.len(),
            forall|k: int| 0 <= k < i ==> views(v@)[k] != q@,
        decreases v@.len() - i,
    {
        if same_text(v[i].as_str(), q) {
            assert(views(v@)[i as int] == q@);
            return true;
        }
        i += 1;
    }
    false
}

impl FileTree {
    /// The files present.
    pub open spec fn file_set(&self) -> Set<Seq<char>> {
        views(self.files@).to_set()
    }

    /// The directories present.
    pub open spec fn dir_set(&self) -> Set<Seq<char>> {
        views(self.dirs@).to_set()
    }

    /// Every entry, files first.
    pub open spec fn entries(&self) -> Seq<Seq<char>> {
        views(self.files@) + views(self.dirs@)
    }

    /// The identity of the file `p` denotes: its recorded canonical path,
    /// else its normal form.
    pub open spec fn canonical_of(&self, p: Seq<char>) -> Seq<char> {
        match recorded_canonical(self.canonical@, normalize(p)) {
            Some(c) => c,
            None => normalize(p),
        }
    }

    /// A snapshot holding the normal forms of the given paths, with no
    /// canonical path recorded.
    pub fn new(files: &Vec<String>, dirs: &Vec<String>) -> (r: FileTree)
        ensures
            views(r.files@) == normal_forms(files@),
            views(r.dirs@) == normal_forms(dirs@),
            r.canonical@.len() == 0,
    {
        FileTree { files: normalize_all(files), dirs: normalize_all(dirs), canonical: Vec::new() }
    }

    /// Records the canonical path of `path` (both kept in normal form).
    pub fn record_canonical(&mut self, path: &str, canonical: &str)
        ensures
            final(self).files@ == old(self).files@,
            final(self).dirs@ == old(self).dirs@,
            final(self).canonical@.len() == old(self).canonical@.len() + 1,
            forall|i: int|
                0 <= i < old(self).canonical@.len() ==> final(self).canonical@[i] == old(
                    self,
                ).canonical@[i],
            final(self).canonical@.last().0@ == normalize(path@),
            final(self).canonical@.last().1@ == normalize(canonical@),
    {
        let p = normalize_exec(path);
        let c = normalize_exec(canonical);
        self.canonical.push((p, c));
    }

    /// The identity of the file `p` denotes.
    pub fn canonical_exec(&self, p: &str) -> (r: String)
        ensures
            r@ == self.canonical_of(p@),
    {
        let q = normalize_exec(p);
        let ghost all = self.canonical@;
        let mut i: usize = 0;
        assert(all.skip(0) =~= all);
        while i < self.canonical.len()
            invariant
                all == self.canonical@,
                q@ == normalize(p@),
                i <= all.len(),
                recorded_canonical(all, q@) == recorded_canonical(all.skip(i as int), q@),
            decreases all.len() - i,
        {
            assert(all.skip(i as int)[0] == all[i as int]);
            assert(all.skip(i as int).skip(1) =~= all.skip(i + 1));
            if same_text(self.canonical[i].0.as_str(), q.as_str()) {
                return String::from_str(self.canonical[i].1.as_str());
            }
            i += 1;
        }
        assert(all.skip(i as int).len() == 0);
        q
    }

    /// Whether `p` names a file of the snapshot.
    pub fn is_file(&self, p: &str) -> (r: bool)
        ensures
            r == self.file_set().contains(normalize(p@)),
    {
        let q = normalize_exec(p);
        contains_text(&self.files, q.as_str())
    }

    /// Whether `p` names a directory of the snapshot.
    pub fn is_dir(&self, p: &str) -> (r: bool)
        ensures
            r == self.dir_set().contains(normalize(p@)),
    {
        let q = normalize_exec(p);
        contains_text(&self.dirs, q.as_str())
    }

    /// Whether `p` names a file or a directory of the snapshot.
    pub fn is_present(&self, p: &str) -> (r: bool)
        ensures
            r == (self.file_set().contains(normalize(p@)) || self.dir_set().contains(
                normalize(p@),
            )),
    {
        self.is_file(p) || self.is_dir(p)
    }
}

/// One linting run's view of the project.
#[derive(Clone, Debug)]
pub struct Project {
    pub root: String,
    pub files: Vec<SourceFile>,
    pub tree: FileTree,
}

} // verus!
