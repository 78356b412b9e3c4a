//! One linting run over a walked project, and the walker's filters.

use vstd::prelude::*;
use crate::config::Config;
use crate::diagnostics::{DiagnosticCollection, DiagnosticView};
use crate::organization::{check_file_organization, entry_present, organization_diagnostics};
use crate::paths::{extension_of, join_path, join_path_exec, stem_and_extension};
use crate::project::{FileTree, Project};
use crate::rules::{
    check_component_nesting_depth, check_filename_style, check_server_side_exports,
    filename_diagnostics, nesting_diagnostics, server_export_diagnostics,
};
use crate::text::{same_text, split_on, split_on_exec, views};

verus! {

/// Directory names the walk never enters.
pub open spec fn ignored_dirs() -> Seq<Seq<char>> {
    seq!["node_modules"@, ".next"@, ".git"@, "dist"@, "build"@, "coverage"@, "out"@, ".turbo"@]
}

fn ignored_dir(i: usize) -> (r: &'static str)
    requires
        i < 8,
    ensures
        r@ == ignored_dirs()[i as int],
{
    if i == 0 { "node_modules" } else if i == 1 { ".next" } else if i == 2 { ".git" }
    else if i == 3 { "dist" } else if i == 4 { "build" } else if i == 5 { "coverage" }
    else if i == 6 { "out" } else { ".turbo" }
}

fn is_ignored_name(name: &str) -> (r: bool)
    ensures
        r == ignored_dirs().contains(name@),
{
    let mut i: usize = 0;
    while i < 8
        invariant
            i <= 8,
            forall|k: int| 0 <= k < i ==> ignored_dirs()[k] != name@,
        decreases 8 - i,
    {
        if same_text(ignored_dir(i), name) {
            assert(ignored_dirs()[i as int] == name@);
            return true;
        }
        i += 1;
    }
    false
}

/// Some component of `path` is an ignored directory name.
pub open spec fn ignored(path: Seq<char>) -> bool {
    let segs = split_on(path, '/');
    exists|i: int| 0 <= i < segs.len() && ignored_dirs().contains(segs[i])
}

/// Whether the walk skips `path`: one of its components is a build,
/// dependency or version-control directory.
pub fn is_ignored(path: &str) -> (r: bool)
    ensures
        r == ignored(path@),
{
    let segs = split_on_exec(path, '/');
    let ghost sv = views(segs@);
    let mut i: usize = 0;
    while i < segs.len()
        invariant
            sv == views(segs@),
            sv == split_on(path@, '/'),
            i <= segs@.len(),
            forall|k: int| 0 <= k < i ==> !ignored_dirs().contains(sv[k]),
        decreases segs@.len() - i,
    {
        assert(sv[i as int] == segs@[i as int]@);
        if is_ignored_name(segs[i].as_str()) {
            return true;
        }
        i += 1;
    }
    false
}

/// The extensions of the source files the linter reads.
pub open spec fn relevant_extension(e: Seq<char>) -> bool {
    e == "js"@ || e == "jsx"@ || e == "ts"@ || e == "tsx"@ || e == "mjs"@ || e == "cjs"@
}

/// Whether `path` has a JavaScript or TypeScript extension.
pub fn is_relevant_file(path: &str) -> (r: bool)
    ensures
        r == match extension_of(path@) {
            Some(e) => relevant_extension(e),
            None => false,
        },
{
    let (_, ext) = stem_and_extension(path);
    match ext {
        Some(e) => {
            let e = e.as_str();
            same_text(e, "js") || same_text(e, "jsx") || same_text(e, "ts") || same_text(e, "tsx")
                || same_text(e, "mjs") || same_text(e, "cjs")
        },
        None => false,
    }
}

/// The configuration file names looked for in a project, in order of preference.
pub open spec fn config_names() -> Seq<Seq<char>> {
    seq!["naechste.json"@, "naechste.jsonc"@, "naechste.yaml"@, "naechste.yml"@]
}

fn config_name(i: usize) -> (r: &'static str)
    requires
        i < 4,
    ensures
        r@ == config_names()[i as int],
{
    if i == 0 { "naechste.json" } else if i == 1 { "naechste.jsonc" }
    else if i == 2 { "naechste.yaml" } else { "naechste.yml" }
}

/// The first configuration file present among `names`, else the first name.
pub open spec fn config_file_among(tree: FileTree, base: Seq<char>, names: Seq<Seq<char>>) -> Seq<char>
    decreases names.len(),
{
    if names.len() == 0 {
        join_path(base, config_names()[0])
    } else if entry_present(tree, join_path(base, names[0])) {
        join_path(base, names[0])
    } else {
        config_file_among(tree, base, names.skip(1))
    }
}

/// The configuration file of the project at `base`: the first present of
/// `naechste.json`, `.jsonc`, `.yaml`, `.yml`, else `naechste.json`.
pub fn find_config_in_directory(base: &str, tree: &FileTree) -> (r: String)
    ensures
        r@ == config_file_among(*tree, base@, config_names()),
{
    let ghost all = config_names();
    let mut i: usize = 0;
    assert(all.skip(0) =~= all);
    while i < 4
        invariant
            all == config_names(),
            i <= 4,
            config_file_among(*tree, base@, all) == config_file_among(
                *tree,
                base@,
                all.skip(i as int),
            ),
        decreases 4 - i,
    {
        let candidate = join_path_exec(base, config_name(i));
        assert(all.skip(i as int)[0] == all[i as int]);
        assert(all.skip(i as int).skip(1) =~= all.skip(i + 1));
        if tree.is_present(candidate.as_str()) {
            return candidate;
        }
        i += 1;
    }
    assert(all.skip(4).len() == 0);
    join_path_exec(base, config_name(0))
}

/// What the single-file rules report for one file, rule by rule.
pub open spec fn file_rule_diagnostics(path: Seq<char>, content: Seq<char>, config: Config) -> Seq<DiagnosticView> {
    server_export_diagnostics(path, content, config.rules.server_side_exports) + nesting_diagnostics(
        path,
        config.rules.component_nesting_depth,
    ) + filename_diagnostics(path, config.rules.filename_style_consistency)
}

/// What the single-file rules report for the first `n` files, file by file.
pub open spec fn per_file_upto(project: Project, n: int, config: Config) -> Seq<DiagnosticView>
    decreases n,
{
    if n <= 0 {
        Seq::empty()
    } else {
        per_file_upto(project, n - 1, config) + file_rule_diagnostics(
            project.files@[n - 1].path@,
            project.files@[n - 1].content@,
            config,
        )
    }
}

/// Everything one run reports: the single-file rules file by file, then the
/// organization rules.
pub open spec fn lint_diagnostics(project: Project, config: Config) -> Seq<DiagnosticView> {
    per_file_upto(project, project.files@.len() as int, config) + organization_diagnostics(
        project,
        config.rules.file_organization.options.file_organization_checks@,
        config.rules.file_organization.severity,
    )
}

#[verifier::rlimit(50)]
fn lint_file(path: &str, content: &str, config: &Config, diagnostics: &mut DiagnosticCollection)
    ensures
        final(diagnostics)@ == old(diagnostics)@ + file_rule_diagnostics(path@, content@, *config),
{
    let ghost a = server_export_diagnostics(path@, content@, config.rules.server_side_exports);
    let ghost b = nesting_diagnostics(path@, config.rules.component_nesting_depth);
    let ghost c = filename_diagnostics(path@, config.rules.filename_style_consistency);
    check_server_side_exports(path, content, config, diagnostics);
    check_component_nesting_depth(path, config, diagnostics);
    check_filename_style(path, config, diagnostics);
    assert(diagnostics@ == old(diagnostics)@ + a + b + c);
    assert(old(diagnostics)@ + a + b + c =~= old(diagnostics)@ + (a + b + c));
}

/// Lints the files of a walked project.
pub fn lint(project: &Project, config: &Config) -> (r: DiagnosticCollection)
    ensures
        r@ == lint_diagnostics(*project, *config),
{
    let mut diagnostics = DiagnosticCollection::new();
    let n = project.files.len();
    let mut i: usize = 0;
    assert(diagnostics@ =~= per_file_upto(*project, 0, *config));
    while i < n
        invariant
            n == project.files@.len(),
            i <= n,
            diagnostics@ == per_file_upto(*project, i as int, *config),
        decreases n - i,
    {
        let file = &project.files[i];
        lint_file(file.path.as_str(), file.content.as_str(), config, &mut diagnostics);
        assert(per_file_upto(*project, i + 1, *config) == per_file_upto(*project, i as int, *config)
            + file_rule_diagnostics(file.path@, file.content@, *config));
        i += 1;
    }
    check_file_organization(project, config, &mut diagnostics);
    diagnostics
}

} // verus!
