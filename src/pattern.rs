//! Glob matching of project files against include and exclude patterns,
//! sibling lookup by glob, and segment-aware directory prefixes.

use vstd::prelude::*;
use crate::engines::{glob_hits, glob_match, glob_valid, is_recursive_literal};
use crate::paths::{
    file_name_exec, file_name_of, normalize, normalize_exec, parent_of, parent_of_exec,
    relative_to, relative_to_exec,
};
use crate::project::FileTree;
use crate::text::{concat, same_text, slice, starts_with, views};

verus! {

/// `x` is the whole of `rel` or a `/`-aligned suffix of it.
pub open spec fn ends_in_segment(rel: Seq<char>, x: Seq<char>) -> bool {
    rel == x || (seq!['/'] + x).is_suffix_of(rel)
}

/// The root-relative path of `path`, or its leading-slash form, matches `pattern`.
pub open spec fn glob_matches_path(path: Seq<char>, pattern: Seq<char>, base: Seq<char>) -> bool {
    let rel = relative_to(path, base);
    glob_hits(pattern, rel) || glob_hits(pattern, seq!['/'] + rel)
}

/// Some pattern of `excludes` matches `path`.
pub open spec fn excluded_by(path: Seq<char>, excludes: Seq<Seq<char>>, base: Seq<char>) -> bool {
    exists|i: int| 0 <= i < excludes.len() && glob_matches_path(path, excludes[i], base)
}

/// Whether `path`, made relative to `base_path`, matches the glob `pattern`;
/// an invalid pattern matches nothing. A pattern `**/x` with a literal `x`
/// matches exactly the paths whose relative form ends in the segment-aligned suffix `x`.
pub fn matches_glob(path: &str, pattern: &str, base_path: &str) -> (r: bool)
    ensures
        r == glob_matches_path(path@, pattern@, base_path@),
        !glob_valid(pattern@) ==> !r,
        is_recursive_literal(pattern@) && (pattern@.len() == 3 || pattern@[3] != '/') ==> (r
            <==> ends_in_segment(relative_to(path@, base_path@), pattern@.skip(3))),
{
    let rel = relative_to_exec(path, base_path);
    let r1 = glob_match(pattern, rel.as_str());
    let slashed = concat("/", rel.as_str());
    proof {
        reveal_strlit("/");
        assert(slashed@ =~= seq!['/'] + rel@);
    }
    let r2 = glob_match(pattern, slashed.as_str());
    proof {
        if is_recursive_literal(pattern@) && (pattern@.len() == 3 || pattern@[3] != '/') {
            let x = pattern@.skip(3);
            let sx = seq!['/'] + x;
            let srel = seq!['/'] + rel@;
            if r2 && !r1 {
                assert(srel != x) by {
                    if x.len() > 0 {
                        assert(x[0] == pattern@[3]);
                        assert(srel[0] == '/');
                    }
                }
                assert(sx.is_suffix_of(srel));
                if x.len() == rel@.len() {
                    assert(x =~= rel@) by {
                        assert forall|i: int| 0 <= i < x.len() implies x[i] == rel@[i] by {
                            assert(sx[i + 1] == srel[i + 1]);
                        }
                    }
                } else {
                    assert(sx.is_suffix_of(rel@)) by {
                        assert forall|i: int| 0 <= i < sx.len() implies sx[i] == rel@[rel@.len()
                            - sx.len() + i] by {
                            assert(sx[i] == srel[srel.len() - sx.len() + i]);
                        }
                    }
                }
            }
            if !r1 && !r2 {
                assert(!ends_in_segment(rel@, x));
            }
            if ends_in_segment(rel@, x) {
                if rel@ == x {
                    assert(sx =~= srel);
                } else {
                    assert(sx.is_suffix_of(srel)) by {
                        assert forall|i: int| 0 <= i < sx.len() implies sx[i] == srel[srel.len()
                            - sx.len() + i] by {
                            assert(sx[i] == rel@[rel@.len() - sx.len() + i]);
                        }
                    }
                }
            }
        }
    }
    r1 || r2
}

/// Whether any exclude pattern matches `path`.
pub fn is_excluded(path: &str, exclude_patterns: &Vec<String>, base_path: &str) -> (r: bool)
    ensures
        r == excluded_by(path@, views(exclude_patterns@), base_path@),
{
    let mut i: usize = 0;
    while i < exclude_patterns.len()
        invariant
            i <= exclude_patterns@.len(),
            forall|k: int|
                0 <= k < i ==> !glob_matches_path(
                    path@,
                    views(exclude_patterns@)[k],
                    base_path@,
                ),
        decreases exclude_patterns@.len() - i,
    {
        if matches_glob(path, exclude_patterns[i].as_str(), base_path) {
            assert(glob_matches_path(path@, views(exclude_patterns@)[i as int], base_path@));
            return true;
        }
        i += 1;
    }
    false
}

/// The entries of `entries` that sit directly in `dir` and whose name matches `pattern`.
pub open spec fn siblings_matching(entries: Seq<Seq<char>>, dir: Seq<char>, pattern: Seq<char>) -> Seq<Seq<char>>
    decreases entries.len(),
{
    if entries.len() == 0 {
        Seq::empty()
    } else {
        let prev = siblings_matching(entries.drop_last(), dir, pattern);
        let e = entries.last();
        if parent_of(e) == dir && glob_hits(pattern, file_name_of(e)) {
            prev.push(e)
        } else {
            prev
        }
    }
}

/// Some entry sits directly in `dir` with a name matching `pattern`.
pub open spec fn has_sibling_matching(entries: Seq<Seq<char>>, dir: Seq<char>, pattern: Seq<char>) -> bool {
    exists|i: int|
        0 <= i < entries.len() && parent_of(entries[i]) == dir && glob_hits(
            pattern,
            file_name_of(entries[i]),
        )
}

pub proof fn lemma_siblings_nonempty(entries: Seq<Seq<char>>, dir: Seq<char>, pattern: Seq<char>)
    ensures
        siblings_matching(entries, dir, pattern).len() > 0 <==> has_sibling_matching(
            entries,
            dir,
            pattern,
        ),
    decreases entries.len(),
{
    if entries.len() > 0 {
        let d = entries.drop_last();
        lemma_siblings_nonempty(d, dir, pattern);
        if has_sibling_matching(d, dir, pattern) {
            let i = choose|i: int|
                0 <= i < d.len() && parent_of(d[i]) == dir && glob_hits(
                    pattern,
                    file_name_of(d[i]),
                );
            assert(entries[i] == d[i]);
        }
        if has_sibling_matching(entries, dir, pattern) {
            let i = choose|i: int|
                0 <= i < entries.len() && parent_of(entries[i]) == dir && glob_hits(
                    pattern,
                    file_name_of(entries[i]),
                );
            if i < entries.len() - 1 {
                assert(d[i] == entries[i]);
            }
        }
    }
}

/// The entries of the snapshot directly inside `dir` whose name matches
/// `glob_pattern`, files first; none for an invalid pattern.
pub fn find_sibling_by_glob(tree: &FileTree, dir: &str, glob_pattern: &str) -> (r: Vec<String>)
    ensures
        views(r@) == siblings_matching(tree.entries(), normalize(dir@), glob_pattern@),
{
    let d = normalize_exec(dir);
    let mut r: Vec<String> = Vec::new();
    let ghost es = tree.entries();
    let ghost nf = tree.files@.len() as int;
    let mut i: usize = 0;
    assert(es.take(0) =~= Seq::<Seq<char>>::empty());
    while i < tree.files.len()
        invariant
            es == tree.entries(),
            nf == tree.files@.len(),
            i <= nf,
            views(r@) == siblings_matching(es.take(i as int), d@, glob_pattern@),
        decreases nf - i,
    {
        let e = tree.files[i].as_str();
        assert(e@ == es[i as int]);
        let ghost t = es.take(i + 1);
        assert(t.drop_last() =~= es.take(i as int));
        push_if_sibling(&mut r, e, d.as_str(), glob_pattern);
        i += 1;
    }
    let mut j: usize = 0;
    while j < tree.dirs.len()
        invariant
            es == tree.entries(),
            nf == tree.files@.len(),
            j <= tree.dirs@.len(),
            views(r@) == siblings_matching(es.take(nf + j), d@, glob_pattern@),
        decreases tree.dirs@.len() - j,
    {
        let e = tree.dirs[j].as_str();
        assert(e@ == es[nf + j]);
        let ghost t = es.take(nf + j + 1);
        assert(t.drop_last() =~= es.take(nf + j));
        push_if_sibling(&mut r, e, d.as_str(), glob_pattern);
        j += 1;
    }
    assert(es.take(nf + j) =~= es);
    r
}

fn push_if_sibling(r: &mut Vec<String>, e: &str, d: &str, glob_pattern: &str)
    ensures
        views(final(r)@) == if parent_of(e@) == d@ && glob_hits(glob_pattern@, file_name_of(e@)) {
            views(old(r)@).push(e@)
        } else {
            views(old(r)@)
        },
{
    let p = parent_of_exec(e);
    let name = file_name_exec(e);
    if same_text(p.as_str(), d) && glob_match(glob_pattern, name.as_str()) {
        r.push(String::from_str(e));
        assert(views(r@) =~= views(old(r)@).push(e@));
    }
}

/// `s` without its leading `/` characters.
pub open spec fn trim_leading_slashes(s: Seq<char>) -> Seq<char>
    decreases s.len(),
{
    if s.len() > 0 && s[0] == '/' {
        trim_leading_slashes(s.skip(1))
    } else {
        s
    }
}

/// `s` without its trailing `/` characters.
pub open spec fn trim_trailing_slashes(s: Seq<char>) -> Seq<char>
    decreases s.len(),
{
    if s.len() > 0 && s.last() == '/' {
        trim_trailing_slashes(s.drop_last())
    } else {
        s
    }
}

/// The directory prefix `prefix` (slashes at either end ignored) is the
/// whole of `rel` or is followed in it by a separator.
pub open spec fn under_prefix(rel: Seq<char>, prefix: Seq<char>) -> bool {
    let np = trim_trailing_slashes(trim_leading_slashes(prefix));
    rel == np || (np + seq!['/']).is_prefix_of(rel)
}

fn trim_slashes(s: &str) -> (r: String)
    ensures
        r@ == trim_trailing_slashes(trim_leading_slashes(s@)),
{
    let n = s.unicode_len();
    let mut lo: usize = 0;
    assert(s@.skip(0) =~= s@);
    while lo < n && s.get_char(lo) == '/'
        invariant
            n == s@.len(),
            lo <= n,
            trim_leading_slashes(s@) == trim_leading_slashes(s@.skip(lo as int)),
        decreases n - lo,
    {
        assert(s@.skip(lo as int).skip(1) =~= s@.skip(lo + 1));
        lo += 1;
    }
    let mut hi: usize = n;
    assert(s@.skip(lo as int) =~= s@.subrange(lo as int, n as int));
    while hi > lo && s.get_char(hi - 1) == '/'
        invariant
            n == s@.len(),
            lo <= hi <= n,
            trim_leading_slashes(s@) == s@.skip(lo as int),
            trim_trailing_slashes(trim_leading_slashes(s@)) == trim_trailing_slashes(
                s@.subrange(lo as int, hi as int),
            ),
        decreases hi - lo,
    {
        assert(s@.subrange(lo as int, hi as int).drop_last() =~= s@.subrange(lo as int, hi - 1));
        hi -= 1;
    }
    slice(s, lo, hi)
}

pub open spec fn under_any_prefix(rel: Seq<char>, prefixes: Seq<Seq<char>>) -> bool {
    exists|i: int| 0 <= i < prefixes.len() && under_prefix(rel, prefixes[i])
}

/// Whether `path`, made relative to `base_path`, lies under one of the
/// directory prefixes; a prefix matches whole components only.
pub fn is_under_any_prefix(path: &str, prefixes: &Vec<String>, base_path: &str) -> (r: bool)
    ensures
        r == under_any_prefix(relative_to(path@, base_path@), views(prefixes@)),
{
    let rel = relative_to_exec(path, base_path);
    let mut i: usize = 0;
    while i < prefixes.len()
        invariant
            rel@ == relative_to(path@, base_path@),
            i <= prefixes@.len(),
            forall|k: int| 0 <= k < i ==> !under_prefix(rel@, views(prefixes@)[k]),
        decreases prefixes@.len() - i,
    {
        let np = trim_slashes(prefixes[i].as_str());
        let with_sep = concat(np.as_str(), "/");
        proof {
            reveal_strlit("/");
            assert(with_sep@ =~= np@ + seq!['/']);
            assert(views(prefixes@)[i as int] == prefixes@[i as int]@);
        }
        if same_text(rel.as_str(), np.as_str()) || starts_with(rel.as_str(), with_sep.as_str()) {
            return true;
        }
        i += 1;
    }
    false
}

} // verus!
