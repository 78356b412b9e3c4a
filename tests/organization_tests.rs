use naechste::config::{
    Config, EnforceLocation, MatchPattern, OrganizationCheck, RequireKind, Severity, WhenImportedBy,
};
use naechste::diagnostics::DiagnosticCollection;
use naechste::imports::build_import_index;
use naechste::organization::check_file_organization;
use naechste::project::{FileTree, Project, SourceFile};

fn strings(items: &[&str]) -> Vec<String> {
    items.iter().map(|s| s.to_string()).collect()
}

fn project(root: &str, sources: &[(&str, &str)], others: &[&str], dirs: &[&str]) -> Project {
    let files: Vec<SourceFile> = sources
        .iter()
        .map(|(p, c)| SourceFile { path: p.to_string(), content: c.to_string() })
        .collect();
    let mut all: Vec<String> = sources.iter().map(|(p, _)| p.to_string()).collect();
    all.extend(others.iter().map(|s| s.to_string()));
    Project { root: root.to_string(), files, tree: FileTree::new(&all, &strings(dirs)) }
}

fn rule(id: &str, glob: &str, exclude: &[&str], require: Vec<RequireKind>) -> OrganizationCheck {
    OrganizationCheck {
        id: id.to_string(),
        description: None,
        match_pattern: MatchPattern { glob: glob.to_string(), exclude_glob: strings(exclude) },
        require,
        when_imported_by: None,
        enforce_location: None,
    }
}

fn config_with(checks: Vec<OrganizationCheck>, severity: Severity) -> Config {
    let mut config = Config::default();
    config.rules.file_organization.severity = severity;
    config.rules.file_organization.options.file_organization_checks = checks;
    config
}

fn run(project: &Project, config: &Config) -> DiagnosticCollection {
    let mut diagnostics = DiagnosticCollection::new();
    check_file_organization(project, config, &mut diagnostics);
    diagnostics
}

fn placement_rule(importer_glob: &str, matches: &[&str], under: &[&str], message: Option<&str>) -> OrganizationCheck {
    let mut r = rule("ui-location", "**/*.tsx", &[], Vec::new());
    r.when_imported_by = Some(WhenImportedBy {
        importer_glob: importer_glob.to_string(),
        import_path_matches: strings(matches),
    });
    r.enforce_location = Some(EnforceLocation {
        must_be_under: strings(under),
        message: message.map(|m| m.to_string()),
    });
    r
}

#[test]
fn placement_violation_is_reported_once_and_moving_the_file_clears_it() {
    let before = project(
        "/project",
        &[
            ("/project/app/page.tsx", "import { Button } from '@/lib/Button'\n"),
            ("/project/lib/Button.tsx", "export function Button() {}\n"),
        ],
        &[],
        &["/project", "/project/app", "/project/lib"],
    );
    let config = config_with(vec![placement_rule("app/**", &["^@/lib/"], &["components"], None)], Severity::Error);
    let diagnostics = run(&before, &config);
    assert_eq!(diagnostics.diagnostics.len(), 1);
    let d = &diagnostics.diagnostics[0];
    assert_eq!(d.file, "/project/lib/Button.tsx");
    assert_eq!(d.rule, "file-organization:ui-location");
    assert_eq!(d.severity, Severity::Error);
    assert_eq!(
        d.message,
        "File 'lib/Button.tsx' is imported by 'app/page.tsx' and must be under one of [\"components\"]"
    );

    let after = project(
        "/project",
        &[
            ("/project/app/page.tsx", "import { Button } from '@/components/Button'\n"),
            ("/project/components/Button.tsx", "export function Button() {}\n"),
        ],
        &[],
        &["/project", "/project/app", "/project/components"],
    );
    assert_eq!(run(&after, &config).diagnostics.len(), 0);
}

#[test]
fn placement_is_satisfied_under_an_allowed_prefix() {
    let p = project(
        "/project",
        &[
            ("/project/app/page.tsx", "import { Button } from '@/components/Button'\n"),
            ("/project/components/Button.tsx", "export function Button() {}\n"),
        ],
        &[],
        &["/project", "/project/app", "/project/components"],
    );
    let config = config_with(vec![placement_rule("app/**", &["^@/components/"], &["components"], None)], Severity::Warn);
    assert_eq!(run(&p, &config).diagnostics.len(), 0);
}

#[test]
fn placement_uses_the_configured_message() {
    let p = project(
        "/project",
        &[
            ("/project/app/page.tsx", "import { Button } from '../lib/Button'\n"),
            ("/project/lib/Button.tsx", "export function Button() {}\n"),
        ],
        &[],
        &["/project", "/project/app", "/project/lib"],
    );
    let config = config_with(
        vec![placement_rule("app/**", &["Button$"], &["components/ui"], Some("UI components must live under components/ui"))],
        Severity::Warn,
    );
    let diagnostics = run(&p, &config);
    assert_eq!(diagnostics.diagnostics.len(), 1);
    assert_eq!(diagnostics.diagnostics[0].message, "UI components must live under components/ui");
}

#[test]
fn placement_needs_both_halves_of_the_constraint() {
    let p = project(
        "/project",
        &[
            ("/project/app/page.tsx", "import { Button } from '@/lib/Button'\n"),
            ("/project/lib/Button.tsx", "export function Button() {}\n"),
        ],
        &[],
        &["/project", "/project/app", "/project/lib"],
    );
    let mut only_trigger = placement_rule("app/**", &["^@/lib/"], &["components"], None);
    only_trigger.enforce_location = None;
    assert_eq!(run(&p, &config_with(vec![only_trigger], Severity::Warn)).diagnostics.len(), 0);
    let mut only_constraint = placement_rule("app/**", &["^@/lib/"], &["components"], None);
    only_constraint.when_imported_by = None;
    assert_eq!(run(&p, &config_with(vec![only_constraint], Severity::Warn)).diagnostics.len(), 0);
}

#[test]
fn importer_outside_the_importer_glob_does_not_trigger() {
    let p = project(
        "/project",
        &[
            ("/project/pages/index.tsx", "import { Button } from '@/lib/Button'\n"),
            ("/project/lib/Button.tsx", "export function Button() {}\n"),
        ],
        &[],
        &["/project", "/project/pages", "/project/lib"],
    );
    let config = config_with(vec![placement_rule("app/**", &["^@/lib/"], &["components"], None)], Severity::Warn);
    assert_eq!(run(&p, &config).diagnostics.len(), 0);
}

#[test]
fn invalid_regex_never_selects() {
    let p = project(
        "/project",
        &[
            ("/project/app/page.tsx", "import { Button } from '@/lib/Button'\n"),
            ("/project/lib/Button.tsx", "export function Button() {}\n"),
        ],
        &[],
        &["/project", "/project/app", "/project/lib"],
    );
    let config = config_with(vec![placement_rule("app/**", &["(unclosed"], &["components"], None)], Severity::Warn);
    assert_eq!(run(&p, &config).diagnostics.len(), 0);
}

#[test]
fn missing_exact_sibling_is_reported_until_it_exists() {
    let rules = vec![rule(
        "page-needs-user-story",
        "**/page.tsx",
        &[],
        vec![RequireKind::SiblingExact { name: "User-Story.us.md".to_string() }],
    )];
    let config = config_with(rules, Severity::Error);
    let without = project("/project", &[("/project/app/page.tsx", "")], &[], &["/project", "/project/app"]);
    let diagnostics = run(&without, &config);
    assert_eq!(diagnostics.diagnostics.len(), 1);
    assert!(diagnostics.diagnostics[0].message.contains("User-Story.us.md"));
    assert_eq!(
        diagnostics.diagnostics[0].message,
        "Missing required sibling 'User-Story.us.md' for 'app/page.tsx'"
    );

    let with = project(
        "/project",
        &[("/project/app/page.tsx", "")],
        &["/project/app/User-Story.us.md"],
        &["/project", "/project/app"],
    );
    assert_eq!(run(&with, &config).diagnostics.len(), 0);
}

#[test]
fn excluded_file_gets_no_sibling_diagnostic() {
    let rules = vec![rule(
        "component-needs-stories",
        "**/*.tsx",
        &["**/page.tsx"],
        vec![RequireKind::SiblingGlob { glob: "*.stories.tsx".to_string() }],
    )];
    let config = config_with(rules, Severity::Warn);
    let p = project(
        "/project",
        &[("/project/app/page.tsx", ""), ("/project/app/Button.tsx", "")],
        &[],
        &["/project", "/project/app"],
    );
    let diagnostics = run(&p, &config);
    assert_eq!(diagnostics.diagnostics.len(), 1);
    assert_eq!(diagnostics.diagnostics[0].file, "/project/app/Button.tsx");
    assert_eq!(
        diagnostics.diagnostics[0].message,
        "Missing sibling matching '*.stories.tsx' for 'app/Button.tsx'"
    );
}

#[test]
fn glob_sibling_in_the_same_directory_satisfies_the_requirement() {
    let rules = vec![rule(
        "component-needs-stories",
        "**/*.tsx",
        &["**/*.stories.tsx"],
        vec![RequireKind::SiblingGlob { glob: "*.stories.tsx".to_string() }],
    )];
    let config = config_with(rules, Severity::Warn);
    let p = project(
        "/project",
        &[("/project/app/Button.tsx", ""), ("/project/lib/Card.tsx", "")],
        &["/project/app/Button.stories.tsx"],
        &["/project", "/project/app", "/project/lib"],
    );
    let diagnostics = run(&p, &config);
    assert_eq!(diagnostics.diagnostics.len(), 1);
    assert_eq!(diagnostics.diagnostics[0].file, "/project/lib/Card.tsx");
}

#[test]
fn each_unmet_requirement_is_reported_and_rules_are_independent() {
    let both = rule(
        "two-companions",
        "**/*.tsx",
        &[],
        vec![
            RequireKind::SiblingExact { name: "README.md".to_string() },
            RequireKind::SiblingGlob { glob: "*.test.tsx".to_string() },
        ],
    );
    let other = rule("docs", "app/**", &[], vec![RequireKind::SiblingExact { name: "DOCS.md".to_string() }]);
    let config = config_with(vec![both, other], Severity::Warn);
    let p = project("/project", &[("/project/app/Button.tsx", "")], &[], &["/project", "/project/app"]);
    let diagnostics = run(&p, &config);
    let rules: Vec<&str> = diagnostics.diagnostics.iter().map(|d| d.rule.as_str()).collect();
    assert_eq!(
        rules,
        vec!["file-organization:two-companions", "file-organization:two-companions", "file-organization:docs"]
    );
}

#[test]
fn evaluating_twice_gives_identical_diagnostics() {
    let rules = vec![
        rule("stories", "**/*.tsx", &["**/page.tsx"], vec![RequireKind::SiblingGlob { glob: "*.stories.tsx".to_string() }]),
        placement_rule("app/**", &["^@/lib/"], &["components"], None),
    ];
    let config = config_with(rules, Severity::Warn);
    let p = project(
        "/project",
        &[
            ("/project/app/page.tsx", "import { Button } from '@/lib/Button'\n"),
            ("/project/lib/Button.tsx", ""),
            ("/project/app/Card.tsx", ""),
        ],
        &[],
        &["/project", "/project/app", "/project/lib"],
    );
    let first = run(&p, &config);
    let second = run(&p, &config);
    assert_eq!(first.diagnostics.len(), second.diagnostics.len());
    for (a, b) in first.diagnostics.iter().zip(second.diagnostics.iter()) {
        assert_eq!(a.rule, b.rule);
        assert_eq!(a.message, b.message);
        assert_eq!(a.file, b.file);
        assert_eq!(a.severity, b.severity);
        assert_eq!(a.line, b.line);
    }
    assert_eq!(first.diagnostics.len(), 3);
}

#[test]
fn index_shortcut_and_explicit_file_share_one_graph_entry() {
    let p = project(
        "/project",
        &[
            ("/project/app/a.tsx", "import { X } from '../components'\n"),
            ("/project/app/b.tsx", "import { Y } from '../components/index.tsx'\n"),
            ("/project/components/index.tsx", "export const X = 1;\n"),
        ],
        &[],
        &["/project", "/project/app", "/project/components"],
    );
    let index = build_import_index(&p);
    assert_eq!(index.entries.len(), 1);
    assert_eq!(index.entries[0].target, "/project/components/index.tsx");
    assert_eq!(index.entries[0].importers, vec![0, 1]);
}

#[test]
fn repeated_imports_are_listed_each_time_and_packages_are_skipped() {
    let p = project(
        "/project",
        &[
            (
                "/project/app/a.tsx",
                "import React from 'react';\nimport { B } from './b';\nexport { B } from './b';\n",
            ),
            ("/project/app/b.ts", ""),
        ],
        &[],
        &["/project", "/project/app"],
    );
    let index = build_import_index(&p);
    assert_eq!(index.entries.len(), 1);
    assert_eq!(index.entries[0].target, "/project/app/b.ts");
    assert_eq!(index.entries[0].importers, vec![0, 0]);
    assert_eq!(index.importers_of_exec("/project/app/b.ts"), vec![0, 0]);
    assert!(index.importers_of_exec("/project/app/a.tsx").is_empty());
}

#[test]
fn spellings_through_a_symbolic_link_share_one_graph_entry() {
    let mut p = project(
        "/project",
        &[
            ("/project/app/a.tsx", "import { X } from '@/shared/Button'\n"),
            ("/project/app/b.tsx", "import { Y } from '@/components/Button'\n"),
            ("/project/components/Button.tsx", "export const X = 1;\n"),
        ],
        &["/project/shared/Button.tsx"],
        &["/project", "/project/app", "/project/components", "/project/shared"],
    );
    p.tree.record_canonical("/project/shared/Button.tsx", "/project/components/Button.tsx");
    p.tree.record_canonical("/project/components/Button.tsx", "/project/components/Button.tsx");
    let index = build_import_index(&p);
    assert_eq!(index.entries.len(), 1);
    assert_eq!(index.entries[0].target, "/project/components/Button.tsx");
    assert_eq!(index.entries[0].importers, vec![0, 1]);
    assert_eq!(p.tree.canonical_exec("/project/shared/./Button.tsx"), "/project/components/Button.tsx");
}

#[test]
fn placement_looks_up_the_file_by_its_canonical_path() {
    let mut p = project(
        "/project",
        &[
            ("/project/app/page.tsx", "import { Button } from '@/lib/Button'\n"),
            ("/project/lib/Button.tsx", ""),
        ],
        &[],
        &["/project", "/project/app", "/project/lib"],
    );
    p.tree.record_canonical("/project/lib/Button.tsx", "/real/lib/Button.tsx");
    let config = config_with(vec![placement_rule("app/**", &["^@/lib/"], &["components"], None)], Severity::Warn);
    let diagnostics = run(&p, &config);
    assert_eq!(diagnostics.diagnostics.len(), 1);
    assert_eq!(diagnostics.diagnostics[0].file, "/project/lib/Button.tsx");
}
