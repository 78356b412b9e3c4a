//! The import graph: lexical extraction of import specifiers, their
//! resolution to files of the snapshot, and the reverse index from each
//! target file to the files that import it.

use vstd::prelude::*;
use crate::engines::{first_groups, option_views, regex_first_groups};
use crate::paths::{join_path, join_path_exec, normalize, parent_of, parent_of_exec};
use crate::project::{FileTree, Project};
use crate::text::{concat, same_text, slice, starts_with, views};

verus! {

/// `import ... from '<spec>'`
pub const IMPORT_FROM_PATTERN: &'static str = r#"import\s+.*?\s+from\s+['"]([^'"]+)['"]"#;

/// `require('<spec>')`
pub const REQUIRE_PATTERN: &'static str = r#"require\s*\(\s*['"]([^'"]+)['"]\s*\)"#;

/// `export ... from '<spec>'`
pub const EXPORT_FROM_PATTERN: &'static str = r#"export\s+.*?\s+from\s+['"]([^'"]+)['"]"#;

/// The present values of `s`, in order.
pub open spec fn present(s: Seq<Option<Seq<char>>>) -> Seq<Seq<char>>
    decreases s.len(),
{
    if s.len() == 0 {
        Seq::empty()
    } else {
        let p = present(s.drop_last());
        match s.last() {
            Some(x) => p.push(x),
            None => p,
        }
    }
}

/// The specifiers that `pattern` captures in `text`.
pub open spec fn captured(pattern: Seq<char>, text: Seq<char>) -> Seq<Seq<char>> {
    present(regex_first_groups(pattern, text))
}

/// The import specifiers of a file's text: those of `import ... from`, then
/// of `require(...)`, then of `export ... from`, each in textual order.
pub open spec fn specifiers_in(content: Seq<char>) -> Seq<Seq<char>> {
    captured(IMPORT_FROM_PATTERN@, content) + captured(REQUIRE_PATTERN@, content) + captured(
        EXPORT_FROM_PATTERN@,
        content,
    )
}

fn push_captured(out: &mut Vec<String>, pattern: &str, content: &str)
    ensures
        views(final(out)@) == views(old(out)@) + captured(pattern@, content@),
{
    let groups = first_groups(pattern, content);
    let ghost g = regex_first_groups(pattern@, content@);
    let ghost start = views(out@);
    let mut i: usize = 0;
    assert(g.take(0) =~= Seq::<Option<Seq<char>>>::empty());
    assert(start + present(g.take(0)) =~= start);
    while i < groups.len()
        invariant
            option_views(groups@) == g,
            i <= groups@.len(),
            views(out@) == start + present(g.take(i as int)),
        decreases groups@.len() - i,
    {
        let ghost t = g.take(i + 1);
        assert(t.drop_last() =~= g.take(i as int));
        assert(t.last() == option_views(groups@)[i as int]);
        match &groups[i] {
            Some(s) => {
                let ghost prev = views(out@);
                out.push(String::from_str(s.as_str()));
                assert(views(out@) =~= prev.push(s@));
            },
            None => {},
        }
        i += 1;
    }
    assert(g.take(groups@.len() as int) =~= g);
}

/// The import specifiers found in a file's text, by three lexical patterns.
pub fn extract_imports(content: &str) -> (r: Vec<String>)
    ensures
        views(r@) == specifiers_in(content@),
{
    let mut out: Vec<String> = Vec::new();
    push_captured(&mut out, IMPORT_FROM_PATTERN, content);
    push_captured(&mut out, REQUIRE_PATTERN, content);
    push_captured(&mut out, EXPORT_FROM_PATTERN, content);
    assert(views(out@) =~= specifiers_in(content@));
    out
}

/// The candidate path a specifier denotes: `@/x` is `x` under the root,
/// `./x` and `../x` are relative to the importer's directory, anything else
/// is an outside package and has none.
pub open spec fn candidate_path(spec: Seq<char>, importer: Seq<char>, root: Seq<char>) -> Option<Seq<char>> {
    if seq!['@', '/'].is_prefix_of(spec) {
        Some(join_path(root, spec.skip(2)))
    } else if seq!['.', '/'].is_prefix_of(spec) || seq!['.', '.', '/'].is_prefix_of(spec) {
        Some(join_path(parent_of(importer), spec))
    } else {
        None
    }
}

/// The candidate path of an import specifier, relative to the importing file.
pub fn resolve_import_path(import_specifier: &str, importer_file: &str, project_root: &str) -> (r:
    Option<String>)
    ensures
        match r {
            Some(c) => candidate_path(import_specifier@, importer_file@, project_root@) == Some(c@),
            None => candidate_path(import_specifier@, importer_file@, project_root@).is_none(),
        },
{
    proof {
        reveal_strlit("@/");
        reveal_strlit("./");
        reveal_strlit("../");
    }
    assert(("@/")@ =~= seq!['@', '/']);
    assert(("./")@ =~= seq!['.', '/']);
    assert(("../")@ =~= seq!['.', '.', '/']);
    if starts_with(import_specifier, "@/") {
        let n = import_specifier.unicode_len();
        let rest = slice(import_specifier, 2, n);
        assert(rest@ =~= import_specifier@.skip(2));
        return Some(join_path_exec(project_root, rest.as_str()));
    }
    if starts_with(import_specifier, "./") || starts_with(import_specifier, "../") {
        let dir = parent_of_exec(importer_file);
        return Some(join_path_exec(dir.as_str(), import_specifier));
    }
    None
}

/// The suffixes tried after a candidate path: none, then each source extension.
pub open spec fn probe_suffixes() -> Seq<Seq<char>> {
    seq![""@, ".ts"@, ".tsx"@, ".js"@, ".jsx"@, ".mjs"@, ".cjs"@]
}

/// The index files tried inside a candidate directory.
pub open spec fn index_names() -> Seq<Seq<char>> {
    seq!["index.ts"@, "index.tsx"@, "index.js"@, "index.jsx"@, "index.mjs"@, "index.cjs"@]
}

fn probe_suffix(i: usize) -> (r: &'static str)
    requires
        i < 7,
    ensures
        r@ == probe_suffixes()[i as int],
{
    if i == 0 { "" } else if i == 1 { ".ts" } else if i == 2 { ".tsx" } else if i == 3 { ".js" }
    else if i == 4 { ".jsx" } else if i == 5 { ".mjs" } else { ".cjs" }
}

fn index_name(i: usize) -> (r: &'static str)
    requires
        i < 6,
    ensures
        r@ == index_names()[i as int],
{
    if i == 0 { "index.ts" } else if i == 1 { "index.tsx" } else if i == 2 { "index.js" }
    else if i == 3 { "index.jsx" } else if i == 4 { "index.mjs" } else { "index.cjs" }
}

/// The first `base + suffix` that is a file of the tree.
pub open spec fn first_with_suffix(tree: FileTree, base: Seq<char>, suffixes: Seq<Seq<char>>) -> Option<Seq<char>>
    decreases suffixes.len(),
{
    if suffixes.len() == 0 {
        None
    } else if tree.file_set().contains(normalize(base + suffixes[0])) {
        Some(base + suffixes[0])
    } else {
        first_with_suffix(tree, base, suffixes.skip(1))
    }
}

/// The first `base/name` that is a file of the tree.
pub open spec fn first_inside(tree: FileTree, base: Seq<char>, names: Seq<Seq<char>>) -> Option<Seq<char>>
    decreases names.len(),
{
    if names.len() == 0 {
        None
    } else if tree.file_set().contains(normalize(join_path(base, names[0]))) {
        Some(join_path(base, names[0]))
    } else {
        first_inside(tree, base, names.skip(1))
    }
}

/// The file a candidate path denotes: the path itself or with a source
/// extension appended, else, for a directory, its first index file.
pub open spec fn actual_file(tree: FileTree, base: Seq<char>) -> Option<Seq<char>> {
    match first_with_suffix(tree, base, probe_suffixes()) {
        Some(f) => Some(f),
        None => if tree.dir_set().contains(normalize(base)) {
            first_inside(tree, base, index_names())
        } else {
            None
        },
    }
}

/// The file of the snapshot that a candidate import path denotes, probing
/// extensions and then index files.
pub fn resolve_to_actual_file(tree: &FileTree, base_path: &str) -> (r: Option<String>)
    ensures
        match r {
            Some(f) => actual_file(*tree, base_path@) == Some(f@),
            None => actual_file(*tree, base_path@).is_none(),
        },
{
    let ghost all = probe_suffixes();
    let mut i: usize = 0;
    assert(all.skip(0) =~= all);
    while i < 7
        invariant
            all == probe_suffixes(),
            i <= 7,
            first_with_suffix(*tree, base_path@, all) == first_with_suffix(
                *tree,
                base_path@,
                all.skip(i as int),
            ),
        decreases 7 - i,
    {
        let sfx = probe_suffix(i);
        let candidate = concat(base_path, sfx);
        assert(all.skip(i as int)[0] == all[i as int]);
        assert(all.skip(i as int).skip(1) =~= all.skip(i + 1));
        if tree.is_file(candidate.as_str()) {
            return Some(candidate);
        }
        i += 1;
    }
    assert(all.skip(7).len() == 0);
    if !tree.is_dir(base_path) {
        return None;
    }
    let ghost names = index_names();
    let mut j: usize = 0;
    assert(names.skip(0) =~= names);
    while j < 6
        invariant
            names == index_names(),
            j <= 6,
            first_with_suffix(*tree, base_path@, probe_suffixes()).is_none(),
            tree.dir_set().contains(normalize(base_path@)),
            first_inside(*tree, base_path@, names) == first_inside(
                *tree,
                base_path@,
                names.skip(j as int),
            ),
        decreases 6 - j,
    {
        let candidate = join_path_exec(base_path, index_name(j));
        assert(names.skip(j as int)[0] == names[j as int]);
        assert(names.skip(j as int).skip(1) =~= names.skip(j + 1));
        if tree.is_file(candidate.as_str()) {
            return Some(candidate);
        }
        j += 1;
    }
    None
}

/// The canonical file an import specifier of `importer` reaches, if any.
pub open spec fn import_target(project: Project, importer: Seq<char>, spec: Seq<char>) -> Option<Seq<char>> {
    match candidate_path(spec, importer, project.root@) {
        Some(c) => match actual_file(project.tree, c) {
            Some(f) => Some(project.tree.canonical_of(f)),
            None => None,
        },
        None => None,
    }
}

/// The canonical target of one import specifier.
pub fn import_target_exec(project: &Project, importer: &str, spec: &str) -> (r: Option<String>)
    ensures
        match r {
            Some(t) => import_target(*project, importer@, spec@) == Some(t@),
            None => import_target(*project, importer@, spec@).is_none(),
        },
{
    match resolve_import_path(spec, importer, project.root.as_str()) {
        Some(c) => match resolve_to_actual_file(&project.tree, c.as_str()) {
            Some(f) => Some(project.tree.canonical_exec(f.as_str())),
            None => None,
        },
        None => None,
    }
}

} // verus!

verus! {

/// A target file of the import graph and the files that import it, by
/// position in the project's file list, once per import (a file importing
/// the target twice is listed twice).
#[derive(Clone, Debug)]
pub struct ImportEntry {
    pub target: String,
    pub importers: Vec<usize>,
}

/// The reverse import graph: one entry per canonical target.
#[derive(Clone, Debug)]
pub struct ImportIndex {
    pub entries: Vec<ImportEntry>,
}

/// An import edge: the canonical target and the position of the importing file.
pub type Edge = (Seq<char>, int);

/// The edges contributed by file `i` through the specifiers `specs`.
pub open spec fn file_edges(project: Project, i: int, specs: Seq<Seq<char>>) -> Seq<Edge>
    decreases specs.len(),
{
    if specs.len() == 0 {
        Seq::empty()
    } else {
        let prev = file_edges(project, i, specs.drop_last());
        match import_target(project, project.files@[i].path@, specs.last()) {
            Some(t) => prev.push((t, i)),
            None => prev,
        }
    }
}

/// The edges of the first `n` files, file by file.
pub open spec fn edges_upto(project: Project, n: int) -> Seq<Edge>
    decreases n,
{
    if n <= 0 {
        Seq::empty()
    } else {
        edges_upto(project, n - 1) + file_edges(
            project,
            n - 1,
            specifiers_in(project.files@[n - 1].content@),
        )
    }
}

/// Every import edge of the project, in file order and then textual order.
pub open spec fn import_edges(project: Project) -> Seq<Edge> {
    edges_upto(project, project.files@.len() as int)
}

/// The importers of `t` along `edges`, in order, repeated once per edge.
pub open spec fn importers_in(edges: Seq<Edge>, t: Seq<char>) -> Seq<int>
    decreases edges.len(),
{
    if edges.len() == 0 {
        Seq::empty()
    } else {
        let prev = importers_in(edges.drop_last(), t);
        if edges.last().0 == t {
            prev.push(edges.last().1)
        } else {
            prev
        }
    }
}

pub open spec fn positions(v: Seq<usize>) -> Seq<int> {
    v.map_values(|x: usize| x as int)
}

impl ImportIndex {
    /// No two entries share a target.
    pub open spec fn keys_unique(&self) -> bool {
        forall|a: int, b: int|
            0 <= a < self.entries@.len() && 0 <= b < self.entries@.len() && a != b
                ==> self.entries@[a].target@ != self.entries@[b].target@
    }

    /// The index holds exactly the graph of `edges`: one entry per target
    /// that some edge reaches, with all of that target's importers in edge order.
    pub open spec fn represents(&self, edges: Seq<Edge>) -> bool {
        &&& self.keys_unique()
        &&& forall|k: int|
            0 <= k < self.entries@.len() ==> importers_in(edges, #[trigger] self.entries@[k].target@).len()
                > 0
        &&& forall|k: int|
            0 <= k < self.entries@.len() ==> positions(self.entries@[k].importers@)
                == importers_in(edges, #[trigger] self.entries@[k].target@)
        &&& forall|t: Seq<char>|
            importers_in(edges, t).len() > 0 ==> exists|k: int|
                0 <= k < self.entries@.len() && #[trigger] self.entries@[k].target@ == t
    }

    /// The importers the index records for `t`.
    pub open spec fn importers_of(&self, t: Seq<char>) -> Seq<int> {
        if exists|k: int| 0 <= k < self.entries@.len() && self.entries@[k].target@ == t {
            let k = choose|k: int| 0 <= k < self.entries@.len() && self.entries@[k].target@ == t;
            positions(self.entries@[k].importers@)
        } else {
            Seq::empty()
        }
    }

    /// The position of the entry for `t`.
    pub fn position_of(&self, t: &str) -> (r: Option<usize>)
        ensures
            match r {
                Some(k) => k < self.entries@.len() && self.entries@[k as int].target@ == t@,
                None => forall|k: int|
                    0 <= k < self.entries@.len() ==> self.entries@[k].target@ != t@,
            },
    {
        let mut k: usize = 0;
        while k < self.entries.len()
            invariant
                k <= self.entries@.len(),
                forall|j: int| 0 <= j < k ==> self.entries@[j].target@ != t@,
            decreases self.entries@.len() - k,
        {
            if same_text(self.entries[k].target.as_str(), t) {
                return Some(k);
            }
            k += 1;
        }
        None
    }

    /// The importers of `t`, by position in the project's file list.
    pub fn importers_of_exec(&self, t: &str) -> (r: Vec<usize>)
        requires
            self.keys_unique(),
        ensures
            positions(r@) == self.importers_of(t@),
    {
        match self.position_of(t) {
            Some(k) => {
                let ghost c = choose|c: int|
                    0 <= c < self.entries@.len() && self.entries@[c].target@ == t@;
                assert(c == k);
                self.entries[k].importers.clone()
            },
            None => Vec::new(),
        }
    }

    /// Records one more import of `t` by file `i`.
    fn add_edge(&mut self, t: String, i: usize, Ghost(edges): Ghost<Seq<Edge>>)
        requires
            old(self).represents(edges),
        ensures
            final(self).represents(edges.push((t@, i as int))),
    {
        let ghost e2 = edges.push((t@, i as int));
        assert(e2.drop_last() =~= edges);
        match self.position_of(t.as_str()) {
            Some(k) => {
                let mut entry = self.entries.remove(k);
                entry.importers.push(i);
                assert(positions(entry.importers@) =~= importers_in(edges, t@).push(i as int));
                self.entries.insert(k, entry);
                assert(self.entries@ =~= old(self).entries@.update(k as int, entry));
                assert forall|j: int| 0 <= j < self.entries@.len() implies positions(
                    self.entries@[j].importers@,
                ) == importers_in(e2, #[trigger] self.entries@[j].target@) by {
                    if j != k {
                        assert(self.entries@[j] == old(self).entries@[j]);
                    }
                }
                assert forall|x: Seq<char>| importers_in(e2, x).len() > 0 implies exists|j: int|
                    0 <= j < self.entries@.len() && #[trigger] self.entries@[j].target@ == x by {
                    if x != t@ {
                        assert(importers_in(e2, x) == importers_in(edges, x));
                        let j = choose|j: int|
                            0 <= j < old(self).entries@.len() && old(self).entries@[j].target@
                                == x;
                        assert(self.entries@[j] == old(self).entries@[j]);
                    } else {
                        assert(self.entries@[k as int].target@ == x);
                    }
                }
                assert(self.keys_unique()) by {
                    assert forall|a: int, b: int|
                        0 <= a < self.entries@.len() && 0 <= b < self.entries@.len() && a
                            != b implies self.entries@[a].target@ != self.entries@[b].target@ by {
                        assert(self.entries@[a].target@ == old(self).entries@[a].target@);
                        assert(self.entries@[b].target@ == old(self).entries@[b].target@);
                    }
                }
            },
            None => {
                assert(importers_in(edges, t@).len() == 0) by {
                    if importers_in(edges, t@).len() > 0 {
                        let j = choose|j: int|
                            0 <= j < old(self).entries@.len() && old(self).entries@[j].target@
                                == t@;
                    }
                }
                let mut importers: Vec<usize> = Vec::new();
                importers.push(i);
                assert(positions(importers@) =~= importers_in(edges, t@).push(i as int));
                self.entries.push(ImportEntry { target: t, importers });
                let n = self.entries.len();
                assert forall|j: int| 0 <= j < self.entries@.len() implies positions(
                    self.entries@[j].importers@,
                ) == importers_in(e2, #[trigger] self.entries@[j].target@) by {
                    if j < n - 1 {
                        assert(self.entries@[j] == old(self).entries@[j]);
                    }
                }
                assert forall|x: Seq<char>| importers_in(e2, x).len() > 0 implies exists|j: int|
                    0 <= j < self.entries@.len() && #[trigger] self.entries@[j].target@ == x by {
                    if x != t@ {
                        assert(importers_in(e2, x) == importers_in(edges, x));
                        let j = choose|j: int|
                            0 <= j < old(self).entries@.len() && old(self).entries@[j].target@
                                == x;
                        assert(self.entries@[j] == old(self).entries@[j]);
                    } else {
                        assert(self.entries@[n - 1].target@ == x);
                    }
                }
                assert(self.keys_unique()) by {
                    assert forall|a: int, b: int|
                        0 <= a < self.entries@.len() && 0 <= b < self.entries@.len() && a
                            != b implies self.entries@[a].target@ != self.entries@[b].target@ by {
                        if a < n - 1 {
                            assert(self.entries@[a] == old(self).entries@[a]);
                        }
                        if b < n - 1 {
                            assert(self.entries@[b] == old(self).entries@[b]);
                        }
                    }
                }
            },
        }
    }
}

} // verus!

verus! {

/// The specifiers of every file of the project, in file order.
pub open spec fn extracted(project: Project, specs: Seq<Vec<String>>) -> bool {
    &&& specs.len() == project.files@.len()
    &&& forall|i: int|
        0 <= i < specs.len() ==> views(#[trigger] specs[i]@) == specifiers_in(
            project.files@[i].content@,
        )
}

/// Extracts the import specifiers of every file once.
pub fn extract_all(project: &Project) -> (r: Vec<Vec<String>>)
    ensures
        extracted(*project, r@),
{
    let mut r: Vec<Vec<String>> = Vec::new();
    let mut i: usize = 0;
    while i < project.files.len()
        invariant
            i <= project.files@.len(),
            r@.len() == i,
            forall|k: int|
                0 <= k < i ==> views(#[trigger] r@[k]@) == specifiers_in(
                    project.files@[k].content@,
                ),
        decreases project.files@.len() - i,
    {
        r.push(extract_imports(project.files[i].content.as_str()));
        i += 1;
    }
    r
}

/// The import graph from specifiers already extracted.
pub fn index_from_specifiers(project: &Project, specs: &Vec<Vec<String>>) -> (r: ImportIndex)
    requires
        extracted(*project, specs@),
    ensures
        r.represents(import_edges(*project)),
{
    let mut index = ImportIndex { entries: Vec::new() };
    let n = project.files.len();
    let mut i: usize = 0;
    while i < n
        invariant
            n == project.files@.len(),
            extracted(*project, specs@),
            i <= n,
            index.represents(edges_upto(*project, i as int)),
        decreases n - i,
    {
        let importer = project.files[i].path.as_str();
        let file_specs = &specs[i];
        let ghost s = views(file_specs@);
        let ghost base = edges_upto(*project, i as int);
        assert(s.take(0) =~= Seq::<Seq<char>>::empty());
        assert(base + file_edges(*project, i as int, s.take(0)) =~= base);
        let mut j: usize = 0;
        while j < file_specs.len()
            invariant
                n == project.files@.len(),
                i < n,
                importer@ == project.files@[i as int].path@,
                s == views(file_specs@),
                j <= file_specs@.len(),
                index.represents(base + file_edges(*project, i as int, s.take(j as int))),
            decreases file_specs@.len() - j,
        {
            let ghost t = s.take(j + 1);
            assert(t.drop_last() =~= s.take(j as int));
            assert(t.last() == file_specs@[j as int]@);
            match import_target_exec(project, importer, file_specs[j].as_str()) {
                Some(target) => {
                    let ghost e = (target@, i as int);
                    let ghost prev = base + file_edges(*project, i as int, s.take(j as int));
                    index.add_edge(target, i, Ghost(prev));
                    assert(prev.push(e) =~= base + file_edges(*project, i as int, t));
                },
                None => {},
            }
            j += 1;
        }
        assert(s.take(file_specs@.len() as int) =~= s);
        assert(edges_upto(*project, i + 1) == base + file_edges(*project, i as int, s));
        i += 1;
    }
    index
}

/// The reverse import graph of the project: each canonical target file with
/// the files that import it.
pub fn build_import_index(project: &Project) -> (r: ImportIndex)
    ensures
        r.represents(import_edges(*project)),
{
    let specs = extract_all(project);
    index_from_specifiers(project, &specs)
}

} // verus!

verus! {

proof fn lemma_importers_extend(edges: Seq<Edge>, extra: Seq<Edge>, t: Seq<char>, x: int)
    requires
        importers_in(edges, t).contains(x),
    ensures
        importers_in(edges + extra, t).contains(x),
    decreases extra.len(),
{
    if extra.len() == 0 {
        assert(edges + extra =~= edges);
    } else {
        lemma_importers_extend(edges, extra.drop_last(), t, x);
        assert((edges + extra).drop_last() =~= edges + extra.drop_last());
        let p = importers_in(edges + extra.drop_last(), t);
        let k = choose|k: int| 0 <= k < p.len() && p[k] == x;
        if (edges + extra).last().0 == t {
            assert(p.push((edges + extra).last().1)[k] == x);
        }
    }
}

proof fn lemma_edge_recorded(edges: Seq<Edge>, a: int)
    requires
        0 <= a < edges.len(),
    ensures
        importers_in(edges, edges[a].0).contains(edges[a].1),
    decreases edges.len(),
{
    let d = edges.drop_last();
    if a == edges.len() - 1 {
        let p = importers_in(edges, edges[a].0);
        assert(p == importers_in(d, edges[a].0).push(edges[a].1));
        assert(p[p.len() - 1] == edges[a].1);
    } else {
        lemma_edge_recorded(d, a);
        assert(d[a] == edges[a]);
        lemma_importers_extend(d, seq![edges.last()], edges[a].0, edges[a].1);
        assert(d + seq![edges.last()] =~= edges);
    }
}

proof fn lemma_file_edge(project: Project, i: int, specs: Seq<Seq<char>>, j: int, t: Seq<char>)
    requires
        0 <= j < specs.len(),
        import_target(project, project.files@[i].path@, specs[j]) == Some(t),
    ensures
        file_edges(project, i, specs).contains((t, i)),
    decreases specs.len(),
{
    let d = specs.drop_last();
    let fe = file_edges(project, i, specs);
    if j == specs.len() - 1 {
        assert(fe[fe.len() - 1] == (t, i));
    } else {
        assert(d[j] == specs[j]);
        lemma_file_edge(project, i, d, j, t);
        let pe = file_edges(project, i, d);
        let k = choose|k: int| 0 <= k < pe.len() && pe[k] == (t, i);
        assert(fe[k] == (t, i));
    }
}

proof fn lemma_edges_upto(project: Project, n: int, i: int, j: int, t: Seq<char>)
    requires
        0 <= i < n <= project.files@.len(),
        0 <= j < specifiers_in(project.files@[i].content@).len(),
        import_target(
            project,
            project.files@[i].path@,
            specifiers_in(project.files@[i].content@)[j],
        ) == Some(t),
    ensures
        edges_upto(project, n).contains((t, i)),
    decreases n,
{
    let prev = edges_upto(project, n - 1);
    let fe = file_edges(project, n - 1, specifiers_in(project.files@[n - 1].content@));
    if i == n - 1 {
        lemma_file_edge(project, i, specifiers_in(project.files@[i].content@), j, t);
        let k = choose|k: int| 0 <= k < fe.len() && fe[k] == (t, i);
        assert((prev + fe)[prev.len() + k] == (t, i));
    } else {
        lemma_edges_upto(project, n - 1, i, j, t);
        let k = choose|k: int| 0 <= k < prev.len() && prev[k] == (t, i);
        assert((prev + fe)[k] == (t, i));
    }
}

/// Imports that reach the same canonical file, however their specifiers are
/// spelled (an index-file shortcut and an explicit file name, say), fall
/// under a single entry of the index, which lists both importers.
pub proof fn lemma_spellings_coalesce(
    project: Project,
    index: ImportIndex,
    i1: int,
    j1: int,
    i2: int,
    j2: int,
    t: Seq<char>,
)
    requires
        index.represents(import_edges(project)),
        0 <= i1 < project.files@.len(),
        0 <= i2 < project.files@.len(),
        0 <= j1 < specifiers_in(project.files@[i1].content@).len(),
        0 <= j2 < specifiers_in(project.files@[i2].content@).len(),
        import_target(project, project.files@[i1].path@, specifiers_in(project.files@[i1].content@)[j1])
            == Some(t),
        import_target(project, project.files@[i2].path@, specifiers_in(project.files@[i2].content@)[j2])
            == Some(t),
    ensures
        exists|k: int|
            {
                &&& 0 <= k < index.entries@.len()
                &&& index.entries@[k].target@ == t
                &&& positions(index.entries@[k].importers@).contains(i1)
                &&& positions(index.entries@[k].importers@).contains(i2)
                &&& forall|k2: int|
                    0 <= k2 < index.entries@.len() && index.entries@[k2].target@ == t ==> k2 == k
            },
{
    let edges = import_edges(project);
    let n = project.files@.len() as int;
    lemma_edges_upto(project, n, i1, j1, t);
    lemma_edges_upto(project, n, i2, j2, t);
    let a = choose|a: int| 0 <= a < edges.len() && edges[a] == (t, i1);
    let b = choose|b: int| 0 <= b < edges.len() && edges[b] == (t, i2);
    lemma_edge_recorded(edges, a);
    lemma_edge_recorded(edges, b);
    let k = choose|k: int| 0 <= k < index.entries@.len() && #[trigger] index.entries@[k].target@ == t;
    assert(positions(index.entries@[k].importers@) == importers_in(edges, t));
}

} // verus!

verus! {

/// What an index of `edges` records for `t` is exactly the importers of `t` along `edges`.
pub proof fn lemma_importers_of(index: ImportIndex, edges: Seq<Edge>, t: Seq<char>)
    requires
        index.represents(edges),
    ensures
        index.importers_of(t) == importers_in(edges, t),
{
    if exists|k: int| 0 <= k < index.entries@.len() && index.entries@[k].target@ == t {
        let k = choose|k: int| 0 <= k < index.entries@.len() && index.entries@[k].target@ == t;
        assert(positions(index.entries@[k].importers@) == importers_in(edges, t));
    } else {
        if importers_in(edges, t).len() > 0 {
            let k = choose|k: int|
                0 <= k < index.entries@.len() && #[trigger] index.entries@[k].target@ == t;
        }
        assert(importers_in(edges, t) =~= Seq::<int>::empty());
    }
}

} // verus!
