//! The single-file rules: server-only exports in client modules, nesting
//! depth below `app`/`pages`, filename casing, and companion files.

use vstd::prelude::*;
use crate::config::{Config, FilenameStyle, RuleConfig, Severity};
use crate::diagnostics::{Diagnostic, DiagnosticCollection, DiagnosticView};
use crate::engines::{debug_list_exec, regex_finds, regex_match};
use crate::engines::debug_list;
use crate::organization::{diagnostic, entry_present};
use crate::paths::{extension_of, file_name_exec, file_name_of, join_path, join_path_exec, parent_of, parent_of_exec};
use crate::project::FileTree;
use crate::paths::{file_stem_of, stem_and_extension};
use crate::text::{
    concat, decimal, decimal_text, ends_with, find_text, trim_white_space, trimmed, occurs_at, replace_all, replaced, same_text, slice, split_on,
    split_on_exec, views,
};

verus! {

/// `p` occurs somewhere in `s`.
pub open spec fn has_occurrence(s: Seq<char>, p: Seq<char>) -> bool {
    exists|k: int| occurs_at(s, p, k)
}

/// The position of the first occurrence of `p` in `s`.
pub open spec fn first_occurrence(s: Seq<char>, p: Seq<char>) -> int {
    choose|k: int| occurs_at(s, p, k) && forall|j: int| 0 <= j < k ==> !occurs_at(s, p, j)
}

proof fn lemma_first_occurrence(s: Seq<char>, p: Seq<char>, k: int)
    requires
        occurs_at(s, p, k),
        forall|j: int| 0 <= j < k ==> !occurs_at(s, p, j),
    ensures
        first_occurrence(s, p) == k,
{
    let c = first_occurrence(s, p);
    assert(occurs_at(s, p, c) && forall|j: int| 0 <= j < c ==> !occurs_at(s, p, j));
    if c < k {
        assert(!occurs_at(s, p, c));
    }
    if k < c {
        assert(!occurs_at(s, p, k));
    }
}

/// How many of `segs` are non-empty.
pub open spec fn count_nonempty(segs: Seq<Seq<char>>) -> nat
    decreases segs.len(),
{
    if segs.len() == 0 {
        0
    } else {
        count_nonempty(segs.drop_last()) + if segs.last().len() > 0 {
            1nat
        } else {
            0nat
        }
    }
}

/// The number of non-empty `/`-separated components of `s`.
pub open spec fn segment_depth(s: Seq<char>) -> nat {
    count_nonempty(split_on(s, '/'))
}

/// The number of non-empty path components of `path_part`.
pub fn count_depth(path_part: &str) -> (r: usize)
    ensures
        r == segment_depth(path_part@),
{
    let segs = split_on_exec(path_part, '/');
    let ghost sv = views(segs@);
    let mut n: usize = 0;
    let mut i: usize = 0;
    assert(sv.take(0) =~= Seq::<Seq<char>>::empty());
    while i < segs.len()
        invariant
            sv == views(segs@),
            i <= segs@.len(),
            n <= i,
            n == count_nonempty(sv.take(i as int)),
        decreases segs@.len() - i,
    {
        assert(sv.take(i + 1).drop_last() =~= sv.take(i as int));
        assert(sv.take(i + 1).last() == segs@[i as int]@);
        if segs[i].unicode_len() > 0 {
            n += 1;
        }
        i += 1;
    }
    assert(sv.take(segs@.len() as int) =~= sv);
    n
}

/// The depth of a file below the first `/app/`, else below the first
/// `/pages/`; none outside both.
pub open spec fn nesting_depth(p: Seq<char>) -> Option<nat> {
    if has_occurrence(p, "/app/"@) {
        Some(segment_depth(p.skip(first_occurrence(p, "/app/"@) + "/app/"@.len())))
    } else if has_occurrence(p, "/pages/"@) {
        Some(segment_depth(p.skip(first_occurrence(p, "/pages/"@) + "/pages/"@.len())))
    } else {
        None
    }
}

fn depth_after(path: &str, marker: &str) -> (r: Option<usize>)
    ensures
        match r {
            Some(d) => has_occurrence(path@, marker@) && d == segment_depth(
                path@.skip(first_occurrence(path@, marker@) + marker@.len()),
            ),
            None => !has_occurrence(path@, marker@),
        },
{
    match find_text(path, marker) {
        Some(k) => {
            proof {
                lemma_first_occurrence(path@, marker@, k as int);
            }
            let n = path.unicode_len();
            let m = marker.unicode_len();
            let rest = slice(path, k + m, n);
            assert(rest@ =~= path@.skip(k + m));
            Some(count_depth(rest.as_str()))
        },
        None => {
            assert(!has_occurrence(path@, marker@)) by {
                if has_occurrence(path@, marker@) {
                    let k = choose|k: int| occurs_at(path@, marker@, k);
                }
            }
            None
        },
    }
}

/// The nesting-depth diagnostic of `path`, if its depth exceeds the limit.
pub open spec fn nesting_diagnostics(path: Seq<char>, rc: RuleConfig) -> Seq<DiagnosticView> {
    match nesting_depth(path) {
        Some(d) => if d > rc.options.max_nesting_depth {
            seq![
                diagnostic(
                    rc.severity,
                    "component-nesting-depth"@,
                    "Component nesting depth "@ + decimal(d) + " exceeds maximum of "@ + decimal(
                        rc.options.max_nesting_depth as nat,
                    ),
                    path,
                ),
            ]
        } else {
            Seq::empty()
        },
        None => Seq::empty(),
    }
}

fn nesting_depth_exec(path: &str) -> (r: Option<usize>)
    ensures
        match r {
            Some(d) => nesting_depth(path@) == Some(d as nat),
            None => nesting_depth(path@).is_none(),
        },
{
    match depth_after(path, "/app/") {
        Some(d) => Some(d),
        None => depth_after(path, "/pages/"),
    }
}

fn nesting_message(depth: usize, max_depth: usize) -> (r: String)
    ensures
        r@ == "Component nesting depth "@ + decimal(depth as nat) + " exceeds maximum of "@
            + decimal(max_depth as nat),
{
    let mut message = String::from_str("Component nesting depth ");
    let shown = decimal_text(depth);
    message.append(shown.as_str());
    message.append(" exceeds maximum of ");
    let limit = decimal_text(max_depth);
    message.append(limit.as_str());
    message
}

/// Reports a file nested deeper than the configured limit below `app` or `pages`.
pub fn check_component_nesting_depth(
    path: &str,
    config: &Config,
    diagnostics: &mut DiagnosticCollection,
)
    ensures
        final(diagnostics)@ == old(diagnostics)@ + nesting_diagnostics(
            path@,
            config.rules.component_nesting_depth,
        ),
{
    let rc = &config.rules.component_nesting_depth;
    match nesting_depth_exec(path) {
        Some(depth) => {
            if depth > rc.options.max_nesting_depth {
                let d = Diagnostic {
                    severity: rc.severity,
                    rule: String::from_str("component-nesting-depth"),
                    message: nesting_message(depth, rc.options.max_nesting_depth),
                    file: String::from_str(path),
                    line: None,
                };
                diagnostics.add(d);
                assert(diagnostics@ =~= old(diagnostics)@.push(d@));
            } else {
                assert(diagnostics@ =~= old(diagnostics)@ + Seq::<DiagnosticView>::empty());
            }
        },
        None => {
            assert(diagnostics@ =~= old(diagnostics)@ + Seq::<DiagnosticView>::empty());
        },
    }
}

} // verus!

verus! {

pub const KEBAB_CASE_PATTERN: &'static str = r"^[a-z][a-z0-9]*(-[a-z0-9]+)*$";

pub const CAMEL_CASE_PATTERN: &'static str = r"^[a-z][a-zA-Z0-9]*$";

pub const PASCAL_CASE_PATTERN: &'static str = r"^[A-Z][a-zA-Z0-9]*$";

pub const SNAKE_CASE_PATTERN: &'static str = r"^[a-z][a-z0-9]*(_[a-z0-9]+)*$";

/// Some character of `s` is an ASCII capital letter.
pub open spec fn has_ascii_upper(s: Seq<char>) -> bool {
    exists|i: int| 0 <= i < s.len() && 'A' <= s[i] && s[i] <= 'Z'
}

/// Some character of `s` is an ASCII small letter.
pub open spec fn has_ascii_lower(s: Seq<char>) -> bool {
    exists|i: int| 0 <= i < s.len() && 'a' <= s[i] && s[i] <= 'z'
}

fn has_char_in(s: &str, lo: char, hi: char) -> (r: bool)
    ensures
        r == exists|i: int| 0 <= i < s@.len() && lo <= s@[i] && s@[i] <= hi,
{
    let n = s.unicode_len();
    let mut i: usize = 0;
    while i < n
        invariant
            n == s@.len(),
            i <= n,
            forall|k: int| 0 <= k < i ==> !(lo <= s@[k] && s@[k] <= hi),
        decreases n - i,
    {
        let c = s.get_char(i);
        if lo <= c && c <= hi {
            return true;
        }
        i += 1;
    }
    false
}

/// Lower-case words joined by single hyphens.
pub fn is_kebab_case(s: &str) -> (r: bool)
    ensures
        r == regex_finds(KEBAB_CASE_PATTERN@, s@),
{
    regex_match(KEBAB_CASE_PATTERN, s)
}

/// A lower-case start, letters and digits, and at least one capital. The
/// pattern admits ASCII letters only, so an ASCII test finds every capital.
pub fn is_camel_case(s: &str) -> (r: bool)
    ensures
        r == (regex_finds(CAMEL_CASE_PATTERN@, s@) && has_ascii_upper(s@)),
{
    regex_match(CAMEL_CASE_PATTERN, s) && has_char_in(s, 'A', 'Z')
}

/// A capital start, letters and digits, and at least one small letter.
pub fn is_pascal_case(s: &str) -> (r: bool)
    ensures
        r == (regex_finds(PASCAL_CASE_PATTERN@, s@) && has_ascii_lower(s@)),
{
    regex_match(PASCAL_CASE_PATTERN, s) && has_char_in(s, 'a', 'z')
}

/// Lower-case words joined by single underscores.
pub fn is_snake_case(s: &str) -> (r: bool)
    ensures
        r == regex_finds(SNAKE_CASE_PATTERN@, s@),
{
    regex_match(SNAKE_CASE_PATTERN, s)
}

/// Whether `stem` follows `style`.
pub open spec fn follows_style(style: FilenameStyle, stem: Seq<char>) -> bool {
    match style {
        FilenameStyle::KebabCase => regex_finds(KEBAB_CASE_PATTERN@, stem),
        FilenameStyle::CamelCase => regex_finds(CAMEL_CASE_PATTERN@, stem) && has_ascii_upper(
            stem,
        ),
        FilenameStyle::PascalCase => regex_finds(PASCAL_CASE_PATTERN@, stem) && has_ascii_lower(
            stem,
        ),
        FilenameStyle::SnakeCase => regex_finds(SNAKE_CASE_PATTERN@, stem),
    }
}

/// The name of a style as diagnostics print it.
pub open spec fn style_name(style: FilenameStyle) -> Seq<char> {
    match style {
        FilenameStyle::KebabCase => "KebabCase"@,
        FilenameStyle::CamelCase => "CamelCase"@,
        FilenameStyle::PascalCase => "PascalCase"@,
        FilenameStyle::SnakeCase => "SnakeCase"@,
    }
}

impl FilenameStyle {
    /// The name of the style as diagnostics print it.
    pub fn name(&self) -> (r: &'static str)
        ensures
            r@ == style_name(*self),
    {
        match self {
            FilenameStyle::KebabCase => "KebabCase",
            FilenameStyle::CamelCase => "CamelCase",
            FilenameStyle::PascalCase => "PascalCase",
            FilenameStyle::SnakeCase => "SnakeCase",
        }
    }
}

/// File stems exempt from the casing rule: framework route files and tool configs.
pub open spec fn special_stems() -> Seq<Seq<char>> {
    seq![
        "page"@, "layout"@, "template"@, "loading"@, "error"@, "not-found"@, "route"@,
        "default"@, "middleware"@, "next.config"@, "tailwind.config"@, "postcss.config"@,
        "eslint.config"@, "tsconfig"@, "jsconfig"@, "vitest.config"@, "jest.config"@,
    ]
}

fn special_stem(i: usize) -> (r: &'static str)
    requires
        i < 17,
    ensures
        r@ == special_stems()[i as int],
{
    if i == 0 { "page" } else if i == 1 { "layout" } else if i == 2 { "template" }
    else if i == 3 { "loading" } else if i == 4 { "error" } else if i == 5 { "not-found" }
    else if i == 6 { "route" } else if i == 7 { "default" } else if i == 8 { "middleware" }
    else if i == 9 { "next.config" } else if i == 10 { "tailwind.config" }
    else if i == 11 { "postcss.config" } else if i == 12 { "eslint.config" }
    else if i == 13 { "tsconfig" } else if i == 14 { "jsconfig" }
    else if i == 15 { "vitest.config" } else { "jest.config" }
}

fn is_special_stem(stem: &str) -> (r: bool)
    ensures
        r == special_stems().contains(stem@),
{
    let mut i: usize = 0;
    while i < 17
        invariant
            i <= 17,
            forall|k: int| 0 <= k < i ==> special_stems()[k] != stem@,
        decreases 17 - i,
    {
        if same_text(special_stem(i), stem) {
            assert(special_stems()[i as int] == stem@);
            return true;
        }
        i += 1;
    }
    false
}

/// The casing diagnostic of `path`: its stem, unless exempt, must follow the style.
pub open spec fn filename_diagnostics(path: Seq<char>, rc: RuleConfig) -> Seq<DiagnosticView> {
    let stem = file_stem_of(path);
    let style = rc.options.filename_style;
    if special_stems().contains(stem) || follows_style(style, stem) {
        Seq::empty()
    } else {
        seq![
            diagnostic(
                rc.severity,
                "filename-style-consistency"@,
                "Filename '"@ + stem + "' does not match expected style: "@ + style_name(style),
                path,
            ),
        ]
    }
}

/// Reports a file whose stem does not follow the configured casing style.
pub fn check_filename_style(path: &str, config: &Config, diagnostics: &mut DiagnosticCollection)
    ensures
        final(diagnostics)@ == old(diagnostics)@ + filename_diagnostics(
            path@,
            config.rules.filename_style_consistency,
        ),
{
    let rc = &config.rules.filename_style_consistency;
    let (stem, _) = stem_and_extension(path);
    let style = rc.options.filename_style;
    let ok = is_special_stem(stem.as_str()) || match style {
        FilenameStyle::KebabCase => is_kebab_case(stem.as_str()),
        FilenameStyle::CamelCase => is_camel_case(stem.as_str()),
        FilenameStyle::PascalCase => is_pascal_case(stem.as_str()),
        FilenameStyle::SnakeCase => is_snake_case(stem.as_str()),
    };
    if ok {
        assert(diagnostics@ =~= old(diagnostics)@ + Seq::<DiagnosticView>::empty());
    } else {
        let mut message = String::from_str("Filename '");
        message.append(stem.as_str());
        message.append("' does not match expected style: ");
        message.append(style.name());
        let d = Diagnostic {
            severity: rc.severity,
            rule: String::from_str("filename-style-consistency"),
            message,
            file: String::from_str(path),
            line: None,
        };
        diagnostics.add(d);
        assert(diagnostics@ =~= old(diagnostics)@.push(d@));
    }
}

} // verus!

verus! {

/// What precedes an export's name in the declaration patterns.
pub const EXPORT_DECLARATION_PREFIX: &'static str = r"export\s+(const|function|async\s+function)\s+";

/// Some line of `content`, once trimmed, is a `'use client'` directive.
#[verifier::opaque]
pub open spec fn has_use_client(content: Seq<char>) -> bool {
    let lines = split_on(content, '\n');
    exists|i: int|
        0 <= i < lines.len() && (trimmed(lines[i]) == "'use client'"@ || trimmed(lines[i])
            == "\"use client\""@)
}

fn has_use_client_exec(content: &str) -> (r: bool)
    ensures
        r == has_use_client(content@),
{
    let lines = split_on_exec(content, '\n');
    let ghost lv = views(lines@);
    let mut i: usize = 0;
    while i < lines.len()
        invariant
            lv == views(lines@),
            lv == split_on(content@, '\n'),
            i <= lines@.len(),
            forall|k: int|
                0 <= k < i ==> !(trimmed(lv[k]) == "'use client'"@ || trimmed(lv[k])
                    == "\"use client\""@),
        decreases lines@.len() - i,
    {
        proof {
            reveal(has_use_client);
        }
        let t = trim_white_space(lines[i].as_str());
        assert(lv[i as int] == lines@[i as int]@);
        if same_text(t.as_str(), "'use client'") || same_text(t.as_str(), "\"use client\"") {
            return true;
        }
        i += 1;
    }
    proof {
        reveal(has_use_client);
    }
    false
}

/// The exports that only server code may declare.
pub open spec fn server_exports() -> Seq<Seq<char>> {
    seq!["getServerSideProps"@, "getStaticProps"@, "getStaticPaths"@, "getInitialProps"@]
}

fn server_export(i: usize) -> (r: &'static str)
    requires
        i < 4,
    ensures
        r@ == server_exports()[i as int],
{
    if i == 0 { "getServerSideProps" } else if i == 1 { "getStaticProps" }
    else if i == 2 { "getStaticPaths" } else { "getInitialProps" }
}

/// One diagnostic per name of `names` declared as an export in `content`.
pub open spec fn exports_found(path: Seq<char>, content: Seq<char>, sev: Severity, names: Seq<Seq<char>>) -> Seq<DiagnosticView>
    decreases names.len(),
{
    if names.len() == 0 {
        Seq::empty()
    } else {
        let prev = exports_found(path, content, sev, names.drop_last());
        let name = names.last();
        if regex_finds(EXPORT_DECLARATION_PREFIX@ + name, content) {
            prev.push(
                diagnostic(
                    sev,
                    "server-side-exports"@,
                    "Server-side export '"@ + name + "' found in client component"@,
                    path,
                ),
            )
        } else {
            prev
        }
    }
}

/// The server-export diagnostics of a file: none unless it is a client module.
pub open spec fn server_export_diagnostics(path: Seq<char>, content: Seq<char>, rc: RuleConfig) -> Seq<DiagnosticView> {
    if has_use_client(content) {
        exports_found(path, content, rc.severity, server_exports())
    } else {
        Seq::empty()
    }
}

/// Reports each server-only export declared by a `'use client'` module.
pub fn check_server_side_exports(
    path: &str,
    content: &str,
    config: &Config,
    diagnostics: &mut DiagnosticCollection,
)
    ensures
        final(diagnostics)@ == old(diagnostics)@ + server_export_diagnostics(
            path@,
            content@,
            config.rules.server_side_exports,
        ),
{
    let sev = config.rules.server_side_exports.severity;
    if !has_use_client_exec(content) {
        assert(diagnostics@ =~= old(diagnostics)@ + Seq::<DiagnosticView>::empty());
        return ;
    }
    let ghost all = server_exports();
    let mut i: usize = 0;
    assert(all.take(0) =~= Seq::<Seq<char>>::empty());
    assert(diagnostics@ =~= old(diagnostics)@ + exports_found(path@, content@, sev, all.take(0)));
    while i < 4
        invariant
            all == server_exports(),
            i <= 4,
            diagnostics@ == old(diagnostics)@ + exports_found(
                path@,
                content@,
                sev,
                all.take(i as int),
            ),
        decreases 4 - i,
    {
        let name = server_export(i);
        let ghost t = all.take(i + 1);
        assert(t.drop_last() =~= all.take(i as int));
        assert(t.last() == name@);
        let pattern = concat(EXPORT_DECLARATION_PREFIX, name);
        if regex_match(pattern.as_str(), content) {
            let mut message = String::from_str("Server-side export '");
            message.append(name);
            message.append("' found in client component");
            let d = Diagnostic {
                severity: sev,
                rule: String::from_str("server-side-exports"),
                message,
                file: String::from_str(path),
                line: None,
            };
            diagnostics.add(d);
            assert(diagnostics@ =~= old(diagnostics)@ + exports_found(path@, content@, sev, t));
        }
        i += 1;
    }
    assert(all.take(4) =~= all);
}

} // verus!

verus! {

/// A companion pattern with `*` replaced by the stem and then `{ext}` by the extension.
pub open spec fn resolved_companion(pattern: Seq<char>, stem: Seq<char>, ext: Seq<char>) -> Seq<char> {
    replaced(replaced(pattern, "*"@, stem), "{ext}"@, ext)
}

/// Resolves a companion pattern for one component: `*.test.int.ts` becomes
/// `Button.test.int.ts` for the stem `Button`.
pub fn resolve_companion_pattern(pattern: &str, file_stem: &str, ext: &str) -> (r: String)
    ensures
        r@ == resolved_companion(pattern@, file_stem@, ext@),
{
    proof {
        reveal_strlit("*");
        reveal_strlit("{ext}");
    }
    let starred = replace_all(pattern, "*", file_stem);
    replace_all(starred.as_str(), "{ext}", ext)
}

/// Each pattern of `pats` resolved for the stem and extension.
pub open spec fn resolved_all(pats: Seq<Seq<char>>, stem: Seq<char>, ext: Seq<char>) -> Seq<Seq<char>> {
    pats.map_values(|p: Seq<char>| resolved_companion(p, stem, ext))
}

fn resolve_all(pats: &Vec<String>, stem: &str, ext: &str) -> (r: Vec<String>)
    ensures
        views(r@) == resolved_all(views(pats@), stem@, ext@),
{
    let mut r: Vec<String> = Vec::new();
    let mut i: usize = 0;
    while i < pats.len()
        invariant
            i <= pats@.len(),
            r@.len() == i,
            forall|k: int|
                0 <= k < i ==> #[trigger] r@[k]@ == resolved_companion(pats@[k]@, stem@, ext@),
        decreases pats@.len() - i,
    {
        r.push(resolve_companion_pattern(pats[i].as_str(), stem, ext));
        i += 1;
    }
    assert(views(r@) =~= resolved_all(views(pats@), stem@, ext@));
    r
}

/// Some name of `names`, joined to `dir`, exists in the tree.
pub open spec fn any_present(tree: FileTree, dir: Seq<char>, names: Seq<Seq<char>>) -> bool {
    exists|i: int| 0 <= i < names.len() && entry_present(tree, join_path(dir, names[i]))
}

fn any_present_exec(tree: &FileTree, dir: &str, names: &Vec<String>) -> (r: bool)
    ensures
        r == any_present(*tree, dir@, views(names@)),
{
    let mut i: usize = 0;
    while i < names.len()
        invariant
            i <= names@.len(),
            forall|k: int|
                0 <= k < i ==> !entry_present(*tree, join_path(dir@, views(names@)[k])),
        decreases names@.len() - i,
    {
        let p = join_path_exec(dir, names[i].as_str());
        assert(views(names@)[i as int] == names@[i as int]@);
        if tree.is_present(p.as_str()) {
            return true;
        }
        i += 1;
    }
    false
}

/// The test files that satisfy the test requirement.
pub open spec fn test_names(stem: Seq<char>, ext: Seq<char>) -> Seq<Seq<char>> {
    seq![stem + ".test."@ + ext, stem + ".spec."@ + ext, "__tests__/"@ + stem + "."@ + ext]
}

/// The story files that satisfy the story requirement.
pub open spec fn story_names(stem: Seq<char>, ext: Seq<char>) -> Seq<Seq<char>> {
    seq![stem + ".stories."@ + ext, stem + ".story."@ + ext]
}

/// A one-element sequence when `cond` holds, else an empty one.
pub open spec fn one_if(cond: bool, d: DiagnosticView) -> Seq<DiagnosticView> {
    if cond {
        seq![d]
    } else {
        Seq::empty()
    }
}

/// The companion rule's diagnostic for `path`.
pub open spec fn companion_diagnostic(path: Seq<char>, sev: Severity, message: Seq<char>) -> DiagnosticView {
    diagnostic(sev, "missing-companion-files"@, message, path)
}

/// The message naming the expected patterns.
pub open spec fn expected_suffix(pats: Seq<Seq<char>>) -> Seq<char> {
    " (expected patterns: "@ + debug_list(pats) + ")"@
}

/// One diagnostic per custom category, in order, whose patterns are all unmet.
pub open spec fn custom_diagnostics(
    tree: FileTree,
    path: Seq<char>,
    sev: Severity,
    stem: Seq<char>,
    ext: Seq<char>,
    custom: Seq<(String, Vec<String>)>,
) -> Seq<DiagnosticView>
    decreases custom.len(),
{
    if custom.len() == 0 {
        Seq::empty()
    } else {
        let prev = custom_diagnostics(tree, path, sev, stem, ext, custom.drop_last());
        let (category, pats) = custom.last();
        prev + one_if(
            pats@.len() > 0 && !any_present(
                tree,
                parent_of(path),
                resolved_all(views(pats@), stem, ext),
            ),
            companion_diagnostic(
                path,
                sev,
                "Missing "@ + category@ + " file for component '"@ + stem + "'"@
                    + expected_suffix(views(pats@)),
            ),
        )
    }
}

/// The extensions of component files.
pub open spec fn component_extension(ext: Seq<char>) -> bool {
    ext == "tsx"@ || ext == "jsx"@ || ext == "ts"@ || ext == "js"@
}

/// Stems of files that are themselves companions.
pub open spec fn companion_stem(stem: Seq<char>) -> bool {
    ".test"@.is_suffix_of(stem) || ".spec"@.is_suffix_of(stem) || ".stories"@.is_suffix_of(stem)
        || ".story"@.is_suffix_of(stem) || ".test.int"@.is_suffix_of(stem)
}

/// The extension of `path`, empty when it has none.
pub open spec fn extension_or_empty(path: Seq<char>) -> Seq<char> {
    match extension_of(path) {
        Some(e) => e,
        None => Seq::empty(),
    }
}

/// The companion-file diagnostics of `path`: missing tests, stories,
/// integration tests, page user scenarios and custom companions, in that order.
pub open spec fn companion_diagnostics(tree: FileTree, path: Seq<char>, rc: RuleConfig) -> Seq<DiagnosticView> {
    let o = rc.options;
    let pats = o.companion_file_patterns;
    let sev = rc.severity;
    let integration = views(pats.integration_tests@);
    let scenarios = views(pats.page_user_scenarios@);
    let has_custom = integration.len() > 0 || scenarios.len() > 0 || pats.custom@.len() > 0;
    let ext = extension_or_empty(path);
    let stem = file_stem_of(path);
    let name = file_name_of(path);
    let dir = parent_of(path);
    if !o.require_test_files && !o.require_story_files && !has_custom {
        Seq::empty()
    } else if !component_extension(ext) || companion_stem(stem) {
        Seq::empty()
    } else {
        companion_parts(tree, path, rc, stem, ext)
    }
}

/// The five companion checks of an applicable component, in order.
pub open spec fn companion_parts(tree: FileTree, path: Seq<char>, rc: RuleConfig, stem: Seq<char>, ext: Seq<char>) -> Seq<DiagnosticView> {
    test_part(tree, path, rc, stem, ext) + story_part(tree, path, rc, stem, ext) + integration_part(
        tree,
        path,
        rc,
        stem,
        ext,
    ) + scenario_part(tree, path, rc) + custom_diagnostics(
        tree,
        path,
        rc.severity,
        stem,
        ext,
        rc.options.companion_file_patterns.custom@,
    )
}

/// The missing-test diagnostic, when tests are required.
pub open spec fn test_part(tree: FileTree, path: Seq<char>, rc: RuleConfig, stem: Seq<char>, ext: Seq<char>) -> Seq<DiagnosticView> {
    one_if(
        rc.options.require_test_files && !any_present(tree, parent_of(path), test_names(stem, ext)),
        companion_diagnostic(path, rc.severity, "Missing test file for component '"@ + stem + "'"@),
    )
}

/// The missing-story diagnostic, when stories are required.
pub open spec fn story_part(tree: FileTree, path: Seq<char>, rc: RuleConfig, stem: Seq<char>, ext: Seq<char>) -> Seq<DiagnosticView> {
    one_if(
        rc.options.require_story_files && !any_present(tree, parent_of(path), story_names(stem, ext)),
        companion_diagnostic(path, rc.severity, "Missing story file for component '"@ + stem + "'"@),
    )
}

/// The missing-integration-test diagnostic, when patterns are configured.
pub open spec fn integration_part(tree: FileTree, path: Seq<char>, rc: RuleConfig, stem: Seq<char>, ext: Seq<char>) -> Seq<DiagnosticView> {
    let integration = views(rc.options.companion_file_patterns.integration_tests@);
    one_if(
        integration.len() > 0 && !any_present(tree, parent_of(path), resolved_all(integration, stem, ext)),
        companion_diagnostic(
            path,
            rc.severity,
            "Missing integration test file for component '"@ + stem + "'"@ + expected_suffix(
                integration,
            ),
        ),
    )
}

/// The missing-user-scenario diagnostic of a `page.tsx` or `page.jsx`.
pub open spec fn scenario_part(tree: FileTree, path: Seq<char>, rc: RuleConfig) -> Seq<DiagnosticView> {
    let scenarios = views(rc.options.companion_file_patterns.page_user_scenarios@);
    let name = file_name_of(path);
    one_if(
        scenarios.len() > 0 && (name == "page.tsx"@ || name == "page.jsx"@) && !any_present(
            tree,
            parent_of(path),
            scenarios,
        ),
        companion_diagnostic(path, rc.severity, "Missing user scenario file for page"@ + expected_suffix(scenarios)),
    )
}

} // verus!

verus! {

fn test_names_exec(stem: &str, ext: &str) -> (r: Vec<String>)
    ensures
        views(r@) == test_names(stem@, ext@),
{
    let mut a = String::from_str(stem);
    a.append(".test.");
    a.append(ext);
    let mut b = String::from_str(stem);
    b.append(".spec.");
    b.append(ext);
    let mut c = String::from_str("__tests__/");
    c.append(stem);
    c.append(".");
    c.append(ext);
    let r = vec![a, b, c];
    assert(views(r@) =~= test_names(stem@, ext@));
    r
}

fn story_names_exec(stem: &str, ext: &str) -> (r: Vec<String>)
    ensures
        views(r@) == story_names(stem@, ext@),
{
    let mut a = String::from_str(stem);
    a.append(".stories.");
    a.append(ext);
    let mut b = String::from_str(stem);
    b.append(".story.");
    b.append(ext);
    let r = vec![a, b];
    assert(views(r@) =~= story_names(stem@, ext@));
    r
}

fn expected_suffix_exec(pats: &Vec<String>) -> (r: String)
    ensures
        r@ == expected_suffix(views(pats@)),
{
    let mut s = String::from_str(" (expected patterns: ");
    let listed = debug_list_exec(pats);
    s.append(listed.as_str());
    s.append(")");
    s
}

fn push_companion(
    diagnostics: &mut DiagnosticCollection,
    path: &str,
    sev: Severity,
    message: String,
)
    ensures
        final(diagnostics)@ == old(diagnostics)@.push(companion_diagnostic(path@, sev, message@)),
{
    diagnostics.add(
        Diagnostic {
            severity: sev,
            rule: String::from_str("missing-companion-files"),
            message,
            file: String::from_str(path),
            line: None,
        },
    );
}

fn push_custom(
    tree: &FileTree,
    path: &str,
    dir: &str,
    sev: Severity,
    stem: &str,
    ext: &str,
    custom: &Vec<(String, Vec<String>)>,
    diagnostics: &mut DiagnosticCollection,
)
    requires
        dir@ == parent_of(path@),
    ensures
        final(diagnostics)@ == old(diagnostics)@ + custom_diagnostics(
            *tree,
            path@,
            sev,
            stem@,
            ext@,
            custom@,
        ),
{
    let ghost all = custom@;
    let mut i: usize = 0;
    assert(all.take(0) =~= Seq::<(String, Vec<String>)>::empty());
    assert(diagnostics@ =~= old(diagnostics)@ + custom_diagnostics(
        *tree,
        path@,
        sev,
        stem@,
        ext@,
        all.take(0),
    ));
    while i < custom.len()
        invariant
            all == custom@,
            dir@ == parent_of(path@),
            i <= all.len(),
            diagnostics@ == old(diagnostics)@ + custom_diagnostics(
                *tree,
                path@,
                sev,
                stem@,
                ext@,
                all.take(i as int),
            ),
        decreases all.len() - i,
    {
        let ghost t = all.take(i + 1);
        assert(t.drop_last() =~= all.take(i as int));
        assert(t.last() == custom@[i as int]);
        let (category, pats) = &custom[i];
        if pats.len() > 0 {
            let resolved = resolve_all(pats, stem, ext);
            if !any_present_exec(tree, dir, &resolved) {
                let mut message = String::from_str("Missing ");
                message.append(category.as_str());
                message.append(" file for component '");
                message.append(stem);
                message.append("'");
                let tail = expected_suffix_exec(pats);
                message.append(tail.as_str());
                push_companion(diagnostics, path, sev, message);
            }
        }
        assert(diagnostics@ =~= old(diagnostics)@ + custom_diagnostics(
            *tree,
            path@,
            sev,
            stem@,
            ext@,
            t,
        ));
        i += 1;
    }
    assert(all.take(all.len() as int) =~= all);
}

fn is_component_extension(ext: &str) -> (r: bool)
    ensures
        r == component_extension(ext@),
{
    same_text(ext, "tsx") || same_text(ext, "jsx") || same_text(ext, "ts") || same_text(ext, "js")
}

fn is_companion_stem(stem: &str) -> (r: bool)
    ensures
        r == companion_stem(stem@),
{
    ends_with(stem, ".test") || ends_with(stem, ".spec") || ends_with(stem, ".stories")
        || ends_with(stem, ".story") || ends_with(stem, ".test.int")
}

fn push_test_part(
    tree: &FileTree,
    path: &str,
    dir: &str,
    rc: &RuleConfig,
    s: &str,
    e: &str,
    diagnostics: &mut DiagnosticCollection,
)
    requires
        dir@ == parent_of(path@),
    ensures
        final(diagnostics)@ == old(diagnostics)@ + test_part(*tree, path@, *rc, s@, e@),
{
    if rc.options.require_test_files && !any_present_exec(tree, dir, &test_names_exec(s, e)) {
        let mut message = String::from_str("Missing test file for component '");
        message.append(s);
        message.append("'");
        push_companion(diagnostics, path, rc.severity, message);
    }
    assert(diagnostics@ =~= old(diagnostics)@ + test_part(*tree, path@, *rc, s@, e@));
}

fn push_story_part(
    tree: &FileTree,
    path: &str,
    dir: &str,
    rc: &RuleConfig,
    s: &str,
    e: &str,
    diagnostics: &mut DiagnosticCollection,
)
    requires
        dir@ == parent_of(path@),
    ensures
        final(diagnostics)@ == old(diagnostics)@ + story_part(*tree, path@, *rc, s@, e@),
{
    if rc.options.require_story_files && !any_present_exec(tree, dir, &story_names_exec(s, e)) {
        let mut message = String::from_str("Missing story file for component '");
        message.append(s);
        message.append("'");
        push_companion(diagnostics, path, rc.severity, message);
    }
    assert(diagnostics@ =~= old(diagnostics)@ + story_part(*tree, path@, *rc, s@, e@));
}

fn push_integration_part(
    tree: &FileTree,
    path: &str,
    dir: &str,
    rc: &RuleConfig,
    s: &str,
    e: &str,
    diagnostics: &mut DiagnosticCollection,
)
    requires
        dir@ == parent_of(path@),
    ensures
        final(diagnostics)@ == old(diagnostics)@ + integration_part(*tree, path@, *rc, s@, e@),
{
    let integration = &rc.options.companion_file_patterns.integration_tests;
    if integration.len() > 0 {
        let resolved = resolve_all(integration, s, e);
        if !any_present_exec(tree, dir, &resolved) {
            let mut message = String::from_str("Missing integration test file for component '");
            message.append(s);
            message.append("'");
            let tail = expected_suffix_exec(integration);
            message.append(tail.as_str());
            push_companion(diagnostics, path, rc.severity, message);
        }
    }
    assert(diagnostics@ =~= old(diagnostics)@ + integration_part(*tree, path@, *rc, s@, e@));
}

fn push_scenario_part(
    tree: &FileTree,
    path: &str,
    dir: &str,
    rc: &RuleConfig,
    diagnostics: &mut DiagnosticCollection,
)
    requires
        dir@ == parent_of(path@),
    ensures
        final(diagnostics)@ == old(diagnostics)@ + scenario_part(*tree, path@, *rc),
{
    let scenarios = &rc.options.companion_file_patterns.page_user_scenarios;
    let name = file_name_exec(path);
    if scenarios.len() > 0 && (same_text(name.as_str(), "page.tsx") || same_text(
        name.as_str(),
        "page.jsx",
    )) && !any_present_exec(tree, dir, scenarios) {
        let mut message = String::from_str("Missing user scenario file for page");
        let tail = expected_suffix_exec(scenarios);
        message.append(tail.as_str());
        push_companion(diagnostics, path, rc.severity, message);
    }
    assert(diagnostics@ =~= old(diagnostics)@ + scenario_part(*tree, path@, *rc));
}

/// Reports the companion files that a component lacks beside it, as the
/// companion options require.
pub fn check_missing_companion_files(
    path: &str,
    tree: &FileTree,
    config: &Config,
    diagnostics: &mut DiagnosticCollection,
)
    ensures
        final(diagnostics)@ == old(diagnostics)@ + companion_diagnostics(
            *tree,
            path@,
            config.rules.missing_companion_files,
        ),
{
    let rc = &config.rules.missing_companion_files;
    let options = &rc.options;
    let patterns = &options.companion_file_patterns;
    let sev = rc.severity;
    let has_custom = patterns.integration_tests.len() > 0 || patterns.page_user_scenarios.len() > 0
        || patterns.custom.len() > 0;
    assert(has_custom == (views(patterns.integration_tests@).len() > 0 || views(
        patterns.page_user_scenarios@,
    ).len() > 0 || patterns.custom@.len() > 0));
    if !options.require_test_files && !options.require_story_files && !has_custom {
        assert(diagnostics@ =~= old(diagnostics)@ + Seq::<DiagnosticView>::empty());
        return ;
    }
    let (stem, ext_opt) = stem_and_extension(path);
    let ext = match ext_opt {
        Some(e) => e,
        None => String::new(),
    };
    assert(ext@ == extension_or_empty(path@));
    if !is_component_extension(ext.as_str()) || is_companion_stem(stem.as_str()) {
        assert(diagnostics@ =~= old(diagnostics)@ + Seq::<DiagnosticView>::empty());
        return ;
    }
    let dir = parent_of_exec(path);
    push_companion_parts(tree, path, dir.as_str(), rc, stem.as_str(), ext.as_str(), diagnostics);
}

fn push_companion_parts(
    tree: &FileTree,
    path: &str,
    dir: &str,
    rc: &RuleConfig,
    s: &str,
    e: &str,
    diagnostics: &mut DiagnosticCollection,
)
    requires
        dir@ == parent_of(path@),
    ensures
        final(diagnostics)@ == old(diagnostics)@ + companion_parts(*tree, path@, *rc, s@, e@),
{
    push_test_part(tree, path, dir, rc, s, e, diagnostics);
    push_story_part(tree, path, dir, rc, s, e, diagnostics);
    push_integration_part(tree, path, dir, rc, s, e, diagnostics);
    push_scenario_part(tree, path, dir, rc, diagnostics);
    push_custom(tree, path, dir, rc.severity, s, e, &rc.options.companion_file_patterns.custom, diagnostics);
    assert(diagnostics@ =~= old(diagnostics)@ + companion_parts(*tree, path@, *rc, s@, e@));
}

} // verus!
