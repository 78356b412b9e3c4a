//! Path arithmetic on `/`-separated strings: relative paths, parents, file
//! names and extensions, joining, and lexical normalization.

use vstd::prelude::*;
use crate::text::{split_on, split_on_exec, views, concat, last_index, last_index_of, lemma_last_index_bounds, same_text, slice, starts_with};

verus! {

/// `p` made relative to `base`; a path outside `base` is returned as it is.
pub open spec fn relative_to(p: Seq<char>, base: Seq<char>) -> Seq<char> {
    if p == base {
        Seq::empty()
    } else if base.len() > 0 && base.last() == '/' && base.is_prefix_of(p) {
        p.skip(base.len() as int)
    } else if base.len() < p.len() && base.is_prefix_of(p) && p[base.len() as int] == '/' {
        p.skip(base.len() as int + 1)
    } else {
        p
    }
}

/// The directory part of `p`: empty for a bare name, `/` for a top-level entry.
pub open spec fn parent_of(p: Seq<char>) -> Seq<char> {
    let k = last_index(p, '/');
    if k < 0 {
        Seq::empty()
    } else if k == 0 {
        seq!['/']
    } else {
        p.take(k)
    }
}

/// The last component of `p`.
pub open spec fn file_name_of(p: Seq<char>) -> Seq<char> {
    p.skip(last_index(p, '/') + 1)
}

/// The file name without its final extension.
pub open spec fn file_stem_of(p: Seq<char>) -> Seq<char> {
    let name = file_name_of(p);
    let d = last_index(name, '.');
    if d > 0 {
        name.take(d)
    } else {
        name
    }
}

/// The final extension of the file name (after its last `.`, which is not the first character).
pub open spec fn extension_of(p: Seq<char>) -> Option<Seq<char>> {
    let name = file_name_of(p);
    let d = last_index(name, '.');
    if d > 0 {
        Some(name.skip(d + 1))
    } else {
        None
    }
}

/// `b` appended to `a` as a path; an absolute `b` replaces `a`.
pub open spec fn join_path(a: Seq<char>, b: Seq<char>) -> Seq<char> {
    if b.len() > 0 && b[0] == '/' {
        b
    } else if a.len() == 0 {
        b
    } else if a.last() == '/' {
        a + b
    } else {
        a + seq!['/'] + b
    }
}

pub fn relative_to_exec(p: &str, base: &str) -> (r: String)
    ensures
        r@ == relative_to(p@, base@),
{
    let n = p.unicode_len();
    let m = base.unicode_len();
    if same_text(p, base) {
        return String::new();
    }
    let pre = starts_with(p, base);
    if m > 0 && base.get_char(m - 1) == '/' && pre {
        return slice(p, m, n);
    }
    if m < n && pre && p.get_char(m) == '/' {
        return slice(p, m + 1, n);
    }
    String::from_str(p)
}

pub fn parent_of_exec(p: &str) -> (r: String)
    ensures
        r@ == parent_of(p@),
{
    proof {
        lemma_last_index_bounds(p@, '/');
    }
    match last_index_of(p, '/') {
        None => String::new(),
        Some(0) => {
            let r = String::from_str("/");
            proof {
                reveal_strlit("/");
            }
            assert(r@ =~= seq!['/']);
            r
        },
        Some(k) => slice(p, 0, k),
    }
}

pub fn file_name_exec(p: &str) -> (r: String)
    ensures
        r@ == file_name_of(p@),
{
    proof {
        lemma_last_index_bounds(p@, '/');
    }
    let n = p.unicode_len();
    match last_index_of(p, '/') {
        None => {
            assert(p@.skip(0) =~= p@);
            String::from_str(p)
        },
        Some(k) => slice(p, k + 1, n),
    }
}

/// File stem and extension of `p`, as `Path::file_stem` and `Path::extension` give them.
pub fn stem_and_extension(p: &str) -> (r: (String, Option<String>))
    ensures
        r.0@ == file_stem_of(p@),
        match r.1 {
            Some(e) => extension_of(p@) == Some(e@),
            None => extension_of(p@).is_none(),
        },
{
    let name = file_name_exec(p);
    let nm = name.as_str();
    proof {
        lemma_last_index_bounds(nm@, '.');
    }
    let n = nm.unicode_len();
    match last_index_of(nm, '.') {
        Some(d) => {
            if d > 0 {
                (slice(nm, 0, d), Some(slice(nm, d + 1, n)))
            } else {
                (name, None)
            }
        },
        None => (name, None),
    }
}

pub fn join_path_exec(a: &str, b: &str) -> (r: String)
    ensures
        r@ == join_path(a@, b@),
{
    let n = a.unicode_len();
    if b.unicode_len() > 0 && b.get_char(0) == '/' {
        return String::from_str(b);
    }
    if n == 0 {
        return String::from_str(b);
    }
    if a.get_char(n - 1) == '/' {
        return concat(a, b);
    }
    let r = concat(a, "/").concat(b);
    proof {
        reveal_strlit("/");
    }
    assert(r@ =~= a@ + seq!['/'] + b@);
    r
}

} // verus!

verus! {

/// Components after resolving `.`, `..` and empty ones; `..` never climbs
/// above the root of an absolute path.
pub open spec fn normalize_segments(segs: Seq<Seq<char>>, absolute: bool) -> Seq<Seq<char>>
    decreases segs.len(),
{
    if segs.len() == 0 {
        Seq::empty()
    } else {
        let prev = normalize_segments(segs.drop_last(), absolute);
        let x = segs.last();
        if x.len() == 0 || x == seq!['.'] {
            prev
        } else if x == seq!['.', '.'] {
            if prev.len() > 0 && prev.last() != seq!['.', '.'] {
                prev.drop_last()
            } else if absolute {
                prev
            } else {
                prev.push(x)
            }
        } else {
            prev.push(x)
        }
    }
}

/// Components joined with `/`.
pub open spec fn join_segments(segs: Seq<Seq<char>>) -> Seq<char>
    decreases segs.len(),
{
    if segs.len() == 0 {
        Seq::empty()
    } else if segs.len() == 1 {
        segs[0]
    } else {
        join_segments(segs.drop_last()) + seq!['/'] + segs.last()
    }
}

/// The lexical normal form of a path: the identity of a file within one
/// snapshot of the tree.
pub open spec fn normalize(p: Seq<char>) -> Seq<char> {
    let absolute = p.len() > 0 && p[0] == '/';
    let body = join_segments(normalize_segments(split_on(p, '/'), absolute));
    if absolute {
        seq!['/'] + body
    } else {
        body
    }
}

fn is_dot(x: &str) -> (r: bool)
    ensures
        r == (x@ == seq!['.']),
{
    proof {
        reveal_strlit(".");
    }
    let r = same_text(x, ".");
    assert(("."@) =~= seq!['.']);
    r
}

fn is_dot_dot(x: &str) -> (r: bool)
    ensures
        r == (x@ == seq!['.', '.']),
{
    proof {
        reveal_strlit("..");
    }
    let r = same_text(x, "..");
    assert(("..")@ =~= seq!['.', '.']);
    r
}

fn normalize_segments_exec(segs: &Vec<String>, absolute: bool) -> (r: Vec<String>)
    ensures
        views(r@) == normalize_segments(views(segs@), absolute),
{
    let mut out: Vec<String> = Vec::new();
    let mut i: usize = 0;
    assert(views(segs@).take(0) =~= Seq::<Seq<char>>::empty());
    while i < segs.len()
        invariant
            i <= segs@.len(),
            views(out@) == normalize_segments(views(segs@).take(i as int), absolute),
        decreases segs@.len() - i,
    {
        let ghost t = views(segs@).take(i + 1);
        assert(t.drop_last() =~= views(segs@).take(i as int));
        let x = segs[i].as_str();
        assert(t.last() == x@);
        if x.unicode_len() == 0 || is_dot(x) {
        } else if is_dot_dot(x) {
            let k = out.len();
            if k > 0 && !is_dot_dot(out[k - 1].as_str()) {
                let ghost prev = out@;
                out.pop();
                assert(views(out@) =~= views(prev).drop_last());
            } else if absolute {
            } else {
                let ghost prev = out@;
                out.push(String::from_str(x));
                assert(views(out@) =~= views(prev).push(x@));
            }
        } else {
            let ghost prev = out@;
            out.push(String::from_str(x));
            assert(views(out@) =~= views(prev).push(x@));
        }
        i += 1;
    }
    assert(views(segs@).take(segs@.len() as int) =~= views(segs@));
    out
}

fn join_segments_exec(segs: &Vec<String>) -> (r: String)
    ensures
        r@ == join_segments(views(segs@)),
{
    if segs.len() == 0 {
        return String::new();
    }
    let mut out = String::from_str(segs[0].as_str());
    let mut i: usize = 1;
    proof {
        reveal_strlit("/");
        assert(views(segs@).take(1).drop_last().len() == 0);
    }
    while i < segs.len()
        invariant
            1 <= i <= segs@.len(),
            out@ == join_segments(views(segs@).take(i as int)),
        decreases segs@.len() - i,
    {
        let ghost t = views(segs@).take(i + 1);
        assert(t.drop_last() =~= views(segs@).take(i as int));
        assert(t.len() == i + 1);
        assert(t.last() == segs@[i as int]@);
        proof {
            reveal_strlit("/");
        }
        assert(("/")@ =~= seq!['/']);
        out.append("/");
        out.append(segs[i].as_str());
        assert(out@ =~= join_segments(t));
        i += 1;
    }
    assert(views(segs@).take(segs@.len() as int) =~= views(segs@));
    out
}

/// The lexical normal form of `p`.
pub fn normalize_exec(p: &str) -> (r: String)
    ensures
        r@ == normalize(p@),
{
    let absolute = p.unicode_len() > 0 && p.get_char(0) == '/';
    let segs = split_on_exec(p, '/');
    let norm = normalize_segments_exec(&segs, absolute);
    let body = join_segments_exec(&norm);
    if absolute {
        proof {
            reveal_strlit("/");
        }
        let r = concat("/", body.as_str());
        assert(r@ =~= seq!['/'] + body@);
        r
    } else {
        body
    }
}

} // verus!
