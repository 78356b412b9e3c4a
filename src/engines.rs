//! The calls into the glob and regex engines and into std's `Debug`
//! formatting, each behind a small trusted wrapper whose contract names what
//! it returns.

use vstd::prelude::*;
use crate::text::views;

verus! {

/// Whether `pattern` is a valid shell glob: what `glob::Pattern::new` accepts.
pub uninterp spec fn glob_valid(pattern: Seq<char>) -> bool;

/// Whether the valid glob `pattern` matches all of `text`, case-sensitively,
/// with `*`, `?` and `[...]` kept within one path segment and `**` spanning
/// segments.
pub uninterp spec fn glob_accepts(pattern: Seq<char>, text: Seq<char>) -> bool;

/// `pattern` is a valid glob that matches all of `text`.
pub open spec fn glob_hits(pattern: Seq<char>, text: Seq<char>) -> bool {
    glob_valid(pattern) && glob_accepts(pattern, text)
}

/// `x` holds none of the glob metacharacters `*`, `?`, `[`.
pub open spec fn glob_literal(x: Seq<char>) -> bool {
    forall|i: int| 0 <= i < x.len() ==> x[i] != '*' && x[i] != '?' && x[i] != '['
}

/// The pattern prefix `**/`.
pub open spec fn recursive_prefix() -> Seq<char> {
    seq!['*', '*', '/']
}

/// `pattern` is `**/` followed by literal characters.
pub open spec fn is_recursive_literal(pattern: Seq<char>) -> bool {
    pattern.len() >= 3 && pattern.take(3) == recursive_prefix() && glob_literal(pattern.skip(3))
}

/// Relies on `glob::Pattern::new`, which rejects an invalid pattern (then
/// nothing matches), and `glob::Pattern::matches_with` with
/// `require_literal_separator`, so that only `**` crosses a `/`. On `**/`
/// followed by literal characters `x`, `**` matches zero or more leading
/// components, so the text must be `x` or end in `/` + `x`; this takes `/` as
/// the only separator, as on Unix (on Windows glob also treats `\` as one).
#[verifier::external_body]
pub(crate) fn glob_match(pattern: &str, text: &str) -> (r: bool)
    ensures
        r == (glob_valid(pattern@) && glob_accepts(pattern@, text@)),
        !glob_valid(pattern@) ==> !r,
        is_recursive_literal(pattern@) ==> (r <==> (text@ == pattern@.skip(3) || (seq!['/']
            + pattern@.skip(3)).is_suffix_of(text@))),
{
    let options = glob::MatchOptions {
        case_sensitive: true,
        require_literal_separator: true,
        require_literal_leading_dot: false,
    };
    match glob::Pattern::new(pattern) {
        Ok(p) => p.matches_with(text, options),
        Err(_) => false,
    }
}

/// Whether `pattern` is a valid regular expression: what `regex::Regex::new` accepts.
pub uninterp spec fn regex_valid(pattern: Seq<char>) -> bool;

/// For each successive non-overlapping match of the valid `pattern` in
/// `text`, its first capture group (absent when the group did not take part).
pub uninterp spec fn regex_first_groups(pattern: Seq<char>, text: Seq<char>) -> Seq<Option<Seq<char>>>;

pub open spec fn option_views(v: Seq<Option<String>>) -> Seq<Option<Seq<char>>> {
    v.map_values(
        |o: Option<String>|
            match o {
                Some(s) => Some(s@),
                None => None,
            },
    )
}

/// Relies on `regex::Regex::new`, which rejects an invalid pattern (then
/// there is no match), and `regex::Regex::captures_iter`, taking group 1 of
/// each match with `regex::Captures::get`.
#[verifier::external_body]
pub(crate) fn first_groups(pattern: &str, text: &str) -> (r: Vec<Option<String>>)
    ensures
        option_views(r@) == regex_first_groups(pattern@, text@),
        !regex_valid(pattern@) ==> r@.len() == 0,
{
    match regex::Regex::new(pattern) {
        Ok(re) => re.captures_iter(text).map(|c| c.get(1).map(|m| m.as_str().to_string())).collect(),
        Err(_) => Vec::new(),
    }
}

/// `pattern` is a valid regular expression that matches somewhere in `text`:
/// `captures_iter` yields an item for every match.
pub open spec fn regex_finds(pattern: Seq<char>, text: Seq<char>) -> bool {
    regex_first_groups(pattern, text).len() > 0
}

/// Whether `pattern` matches somewhere in `text`; an invalid pattern matches nothing.
pub fn regex_match(pattern: &str, text: &str) -> (r: bool)
    ensures
        r == regex_finds(pattern@, text@),
        !regex_valid(pattern@) ==> !r,
{
    let groups = first_groups(pattern, text);
    assert(option_views(groups@).len() == groups@.len());
    groups.len() > 0
}

/// The `Debug` rendering of a list of strings, as `format!("{:?}", v)` gives it.
pub uninterp spec fn debug_list(items: Seq<Seq<char>>) -> Seq<char>;

/// Relies on the `Debug` impl of `Vec<String>` (brackets, quoted and escaped items).
#[verifier::external_body]
pub(crate) fn debug_list_exec(v: &Vec<String>) -> (r: String)
    ensures
        r@ == debug_list(views(v@)),
{
    format!("{:?}", v)
}

} // verus!
