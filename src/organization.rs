//! The organization rule evaluator: for every file and every configured
//! rule, the include/exclude match, the sibling requirements, and the
//! import-triggered placement constraint.

use vstd::prelude::*;
use crate::config::{Config, EnforceLocation, OrganizationCheck, RequireKind, Severity, WhenImportedBy};
use crate::diagnostics::{Diagnostic, DiagnosticCollection, DiagnosticView};
use crate::engines::{debug_list, debug_list_exec, regex_finds, regex_match};
use crate::imports::{
    extract_all, extracted, import_edges, importers_in, index_from_specifiers, lemma_importers_of, positions,
    specifiers_in, ImportIndex,
};
use crate::paths::{
    join_path, join_path_exec, normalize, parent_of, parent_of_exec, relative_to,
    relative_to_exec,
};
use crate::pattern::{
    excluded_by, find_sibling_by_glob, glob_matches_path, has_sibling_matching, is_excluded,
    is_under_any_prefix, lemma_siblings_nonempty, matches_glob, under_any_prefix,
};
use crate::project::{FileTree, Project};
use crate::text::views;

verus! {

/// The diagnostic name of an organization rule.
pub open spec fn rule_name(rule: OrganizationCheck) -> Seq<char> {
    "file-organization:"@ + rule.id@
}

/// A diagnostic without line number.
pub open spec fn diagnostic(sev: Severity, rule: Seq<char>, message: Seq<char>, file: Seq<char>) -> DiagnosticView {
    DiagnosticView { severity: sev, rule, message, file, line: None }
}

/// The rule applies to `file`: its glob matches and no exclude glob does.
pub open spec fn rule_matches(root: Seq<char>, file: Seq<char>, rule: OrganizationCheck) -> bool {
    glob_matches_path(file, rule.match_pattern.glob@, root) && !excluded_by(
        file,
        views(rule.match_pattern.exclude_glob@),
        root,
    )
}

/// `p` is a file or directory of the tree.
pub open spec fn entry_present(tree: FileTree, p: Seq<char>) -> bool {
    tree.file_set().contains(normalize(p)) || tree.dir_set().contains(normalize(p))
}

/// The companion required by `req` exists beside `file`.
pub open spec fn requirement_met(tree: FileTree, file: Seq<char>, req: RequireKind) -> bool {
    match req {
        RequireKind::SiblingExact { name } => entry_present(tree, join_path(parent_of(file), name@)),
        RequireKind::SiblingGlob { glob } => has_sibling_matching(
            tree.entries(),
            normalize(parent_of(file)),
            glob@,
        ),
    }
}

/// The message for an unmet requirement of the file at relative path `rel`.
pub open spec fn requirement_message(req: RequireKind, rel: Seq<char>) -> Seq<char> {
    match req {
        RequireKind::SiblingExact { name } => "Missing required sibling '"@ + name@ + "' for '"@
            + rel + "'"@,
        RequireKind::SiblingGlob { glob } => "Missing sibling matching '"@ + glob@ + "' for '"@
            + rel + "'"@,
    }
}

/// One diagnostic per unmet requirement of `reqs`, in order.
pub open spec fn unmet_diagnostics(
    project: Project,
    file: Seq<char>,
    rule: OrganizationCheck,
    sev: Severity,
    reqs: Seq<RequireKind>,
) -> Seq<DiagnosticView>
    decreases reqs.len(),
{
    if reqs.len() == 0 {
        Seq::empty()
    } else {
        let prev = unmet_diagnostics(project, file, rule, sev, reqs.drop_last());
        let q = reqs.last();
        if requirement_met(project.tree, file, q) {
            prev
        } else {
            prev.push(
                diagnostic(
                    sev,
                    rule_name(rule),
                    requirement_message(q, relative_to(file, project.root@)),
                    file,
                ),
            )
        }
    }
}

/// The sibling-requirement diagnostics of `rule` for `file`.
pub open spec fn sibling_diagnostics(project: Project, file: Seq<char>, rule: OrganizationCheck, sev: Severity) -> Seq<DiagnosticView> {
    if rule_matches(project.root@, file, rule) {
        unmet_diagnostics(project, file, rule, sev, rule.require@)
    } else {
        Seq::empty()
    }
}

/// Some regular expression of `regexes` matches the specifier `s`.
pub open spec fn specifier_selected(s: Seq<char>, regexes: Seq<Seq<char>>) -> bool {
    exists|r: int| 0 <= r < regexes.len() && regex_finds(regexes[r], s)
}

/// File `k` matches the importer glob and one of its specifiers is selected.
pub open spec fn importer_triggers(project: Project, k: int, trigger: WhenImportedBy) -> bool {
    let specs = specifiers_in(project.files@[k].content@);
    &&& glob_matches_path(project.files@[k].path@, trigger.importer_glob@, project.root@)
    &&& exists|j: int|
        0 <= j < specs.len() && specifier_selected(specs[j], views(trigger.import_path_matches@))
}

/// The first importer of `importers` that triggers the constraint.
pub open spec fn first_trigger(project: Project, importers: Seq<int>, trigger: WhenImportedBy) -> Option<int>
    decreases importers.len(),
{
    if importers.len() == 0 {
        None
    } else if 0 <= importers[0] < project.files@.len() && importer_triggers(
        project,
        importers[0],
        trigger,
    ) {
        Some(importers[0])
    } else {
        first_trigger(project, importers.skip(1), trigger)
    }
}

/// The configured message, or one naming the importer and the allowed prefixes.
pub open spec fn location_message(enforce: EnforceLocation, rel: Seq<char>, importer_rel: Seq<char>) -> Seq<char> {
    match enforce.message {
        Some(m) => m@,
        None => "File '"@ + rel + "' is imported by '"@ + importer_rel
            + "' and must be under one of "@ + debug_list(views(enforce.must_be_under@)),
    }
}

/// The placement diagnostic of `rule` for `file`: at most one, when both
/// halves of the constraint are configured, the rule matches, an importer
/// triggers it and the file lies under none of the allowed prefixes.
pub open spec fn location_diagnostics(project: Project, file: Seq<char>, rule: OrganizationCheck, sev: Severity) -> Seq<DiagnosticView> {
    match (rule.when_imported_by, rule.enforce_location) {
        (Some(w), Some(e)) => if !rule_matches(project.root@, file, rule) {
            Seq::empty()
        } else {
            match first_trigger(
                project,
                importers_in(import_edges(project), project.tree.canonical_of(file)),
                w,
            ) {
                Some(k) => if under_any_prefix(
                    relative_to(file, project.root@),
                    views(e.must_be_under@),
                ) {
                    Seq::empty()
                } else {
                    seq![
                        diagnostic(
                            sev,
                            rule_name(rule),
                            location_message(
                                e,
                                relative_to(file, project.root@),
                                relative_to(project.files@[k].path@, project.root@),
                            ),
                            file,
                        ),
                    ]
                },
                None => Seq::empty(),
            }
        },
        _ => Seq::empty(),
    }
}

/// Everything `rule` reports for `file`: sibling diagnostics, then placement.
pub open spec fn rule_diagnostics(project: Project, file: Seq<char>, rule: OrganizationCheck, sev: Severity) -> Seq<DiagnosticView> {
    sibling_diagnostics(project, file, rule, sev) + location_diagnostics(project, file, rule, sev)
}

/// What the rules of `checks` report for file `f`, rule by rule.
pub open spec fn file_diagnostics(project: Project, f: int, checks: Seq<OrganizationCheck>, sev: Severity) -> Seq<DiagnosticView>
    decreases checks.len(),
{
    if checks.len() == 0 {
        Seq::empty()
    } else {
        file_diagnostics(project, f, checks.drop_last(), sev) + rule_diagnostics(
            project,
            project.files@[f].path@,
            checks.last(),
            sev,
        )
    }
}

/// What the rules report for the first `n` files, file by file.
pub open spec fn diagnostics_upto(project: Project, n: int, checks: Seq<OrganizationCheck>, sev: Severity) -> Seq<DiagnosticView>
    decreases n,
{
    if n <= 0 {
        Seq::empty()
    } else {
        diagnostics_upto(project, n - 1, checks, sev) + file_diagnostics(project, n - 1, checks, sev)
    }
}

/// Everything the organization rules report for the project.
pub open spec fn organization_diagnostics(project: Project, checks: Seq<OrganizationCheck>, sev: Severity) -> Seq<DiagnosticView> {
    diagnostics_upto(project, project.files@.len() as int, checks, sev)
}

} // verus!

verus! {

fn rule_name_exec(rule: &OrganizationCheck) -> (r: String)
    ensures
        r@ == rule_name(*rule),
{
    let mut s = String::from_str("file-organization:");
    s.append(rule.id.as_str());
    s
}

fn requirement_met_exec(tree: &FileTree, file: &str, req: &RequireKind) -> (r: bool)
    ensures
        r == requirement_met(*tree, file@, *req),
{
    let dir = parent_of_exec(file);
    match req {
        RequireKind::SiblingExact { name } => {
            let p = join_path_exec(dir.as_str(), name.as_str());
            tree.is_present(p.as_str())
        },
        RequireKind::SiblingGlob { glob } => {
            let found = find_sibling_by_glob(tree, dir.as_str(), glob.as_str());
            proof {
                lemma_siblings_nonempty(tree.entries(), normalize(dir@), glob@);
            }
            assert(views(found@).len() == found@.len());
            found.len() > 0
        },
    }
}

fn requirement_message_exec(req: &RequireKind, rel: &str) -> (r: String)
    ensures
        r@ == requirement_message(*req, rel@),
{
    match req {
        RequireKind::SiblingExact { name } => {
            let mut s = String::from_str("Missing required sibling '");
            s.append(name.as_str());
            s.append("' for '");
            s.append(rel);
            s.append("'");
            s
        },
        RequireKind::SiblingGlob { glob } => {
            let mut s = String::from_str("Missing sibling matching '");
            s.append(glob.as_str());
            s.append("' for '");
            s.append(rel);
            s.append("'");
            s
        },
    }
}

fn push_unmet(
    project: &Project,
    file: &str,
    rule: &OrganizationCheck,
    sev: Severity,
    diagnostics: &mut DiagnosticCollection,
)
    ensures
        final(diagnostics)@ == old(diagnostics)@ + unmet_diagnostics(
            *project,
            file@,
            *rule,
            sev,
            rule.require@,
        ),
{
    let reqs = &rule.require;
    let ghost all = reqs@;
    let rel = relative_to_exec(file, project.root.as_str());
    let mut i: usize = 0;
    assert(all.take(0) =~= Seq::<RequireKind>::empty());
    assert(diagnostics@ =~= old(diagnostics)@ + Seq::<DiagnosticView>::empty());
    while i < reqs.len()
        invariant
            all == reqs@,
            rel@ == relative_to(file@, project.root@),
            i <= all.len(),
            diagnostics@ == old(diagnostics)@ + unmet_diagnostics(
                *project,
                file@,
                *rule,
                sev,
                all.take(i as int),
            ),
        decreases all.len() - i,
    {
        let ghost t = all.take(i + 1);
        assert(t.drop_last() =~= all.take(i as int));
        assert(t.last() == reqs@[i as int]);
        let req = &reqs[i];
        if !requirement_met_exec(&project.tree, file, req) {
            let d = Diagnostic {
                severity: sev,
                rule: rule_name_exec(rule),
                message: requirement_message_exec(req, rel.as_str()),
                file: String::from_str(file),
                line: None,
            };
            diagnostics.add(d);
            assert(d@ == diagnostic(
                sev,
                rule_name(*rule),
                requirement_message(*req, relative_to(file@, project.root@)),
                file@,
            ));
            assert(diagnostics@ =~= old(diagnostics)@ + unmet_diagnostics(
                *project,
                file@,
                *rule,
                sev,
                t,
            ));
        }
        i += 1;
    }
    assert(all.take(all.len() as int) =~= all);
}

fn specifier_selected_exec(s: &str, regexes: &Vec<String>) -> (r: bool)
    ensures
        r == specifier_selected(s@, views(regexes@)),
{
    let mut i: usize = 0;
    while i < regexes.len()
        invariant
            i <= regexes@.len(),
            forall|k: int| 0 <= k < i ==> !regex_finds(views(regexes@)[k], s@),
        decreases regexes@.len() - i,
    {
        if regex_match(regexes[i].as_str(), s) {
            assert(regex_finds(views(regexes@)[i as int], s@));
            return true;
        }
        i += 1;
    }
    false
}

fn importer_triggers_exec(
    project: &Project,
    specs: &Vec<Vec<String>>,
    k: usize,
    trigger: &WhenImportedBy,
) -> (r: bool)
    requires
        extracted(*project, specs@),
        k < project.files@.len(),
    ensures
        r == importer_triggers(*project, k as int, *trigger),
{
    if !matches_glob(
        project.files[k].path.as_str(),
        trigger.importer_glob.as_str(),
        project.root.as_str(),
    ) {
        return false;
    }
    let file_specs = &specs[k];
    let ghost ss = specifiers_in(project.files@[k as int].content@);
    assert(views(file_specs@) == ss);
    let mut j: usize = 0;
    while j < file_specs.len()
        invariant
            views(file_specs@) == ss,
            ss == specifiers_in(project.files@[k as int].content@),
            glob_matches_path(project.files@[k as int].path@, trigger.importer_glob@, project.root@),
            j <= file_specs@.len(),
            forall|m: int|
                0 <= m < j ==> !specifier_selected(ss[m], views(trigger.import_path_matches@)),
        decreases file_specs@.len() - j,
    {
        assert(ss[j as int] == file_specs@[j as int]@);
        if specifier_selected_exec(file_specs[j].as_str(), &trigger.import_path_matches) {
            assert(0 <= j < ss.len() && specifier_selected(ss[j as int], views(trigger.import_path_matches@)));
            return true;
        }
        j += 1;
    }
    false
}

fn first_trigger_exec(
    project: &Project,
    specs: &Vec<Vec<String>>,
    importers: &Vec<usize>,
    trigger: &WhenImportedBy,
) -> (r: Option<usize>)
    requires
        extracted(*project, specs@),
    ensures
        match r {
            Some(k) => k < project.files@.len() && first_trigger(*project, positions(importers@), *trigger) == Some(k as int),
            None => first_trigger(*project, positions(importers@), *trigger).is_none(),
        },
{
    let ghost all = positions(importers@);
    let mut i: usize = 0;
    assert(all.skip(0) =~= all);
    while i < importers.len()
        invariant
            extracted(*project, specs@),
            all == positions(importers@),
            i <= importers@.len(),
            first_trigger(*project, all, *trigger) == first_trigger(
                *project,
                all.skip(i as int),
                *trigger,
            ),
        decreases importers@.len() - i,
    {
        let k = importers[i];
        assert(all.skip(i as int)[0] == k as int);
        assert(all.skip(i as int).skip(1) =~= all.skip(i + 1));
        if k < project.files.len() && importer_triggers_exec(project, specs, k, trigger) {
            return Some(k);
        }
        i += 1;
    }
    assert(all.skip(i as int).len() == 0);
    None
}

fn location_message_exec(enforce: &EnforceLocation, rel: &str, importer_rel: &str) -> (r: String)
    ensures
        r@ == location_message(*enforce, rel@, importer_rel@),
{
    match &enforce.message {
        Some(m) => String::from_str(m.as_str()),
        None => {
            let mut s = String::from_str("File '");
            s.append(rel);
            s.append("' is imported by '");
            s.append(importer_rel);
            s.append("' and must be under one of ");
            let listed = debug_list_exec(&enforce.must_be_under);
            s.append(listed.as_str());
            s
        },
    }
}

fn push_location(
    project: &Project,
    specs: &Vec<Vec<String>>,
    index: &ImportIndex,
    file: &str,
    rule: &OrganizationCheck,
    sev: Severity,
    diagnostics: &mut DiagnosticCollection,
)
    requires
        extracted(*project, specs@),
        index.represents(import_edges(*project)),
        rule_matches(project.root@, file@, *rule),
    ensures
        final(diagnostics)@ == old(diagnostics)@ + location_diagnostics(*project, file@, *rule, sev),
{
    let (trigger, enforce) = match (&rule.when_imported_by, &rule.enforce_location) {
        (Some(w), Some(e)) => (w, e),
        _ => {
            assert(diagnostics@ =~= old(diagnostics)@ + Seq::<DiagnosticView>::empty());
            return ;
        },
    };
    let target = project.tree.canonical_exec(file);
    let importers = index.importers_of_exec(target.as_str());
    proof {
        lemma_importers_of(*index, import_edges(*project), target@);
    }
    match first_trigger_exec(project, specs, &importers, trigger) {
        Some(k) => {
            let rel = relative_to_exec(file, project.root.as_str());
            if is_under_any_prefix(file, &enforce.must_be_under, project.root.as_str()) {
                assert(diagnostics@ =~= old(diagnostics)@ + Seq::<DiagnosticView>::empty());
            } else {
                let importer_rel = relative_to_exec(
                    project.files[k].path.as_str(),
                    project.root.as_str(),
                );
                let d = Diagnostic {
                    severity: sev,
                    rule: rule_name_exec(rule),
                    message: location_message_exec(enforce, rel.as_str(), importer_rel.as_str()),
                    file: String::from_str(file),
                    line: None,
                };
                diagnostics.add(d);
                assert(diagnostics@ =~= old(diagnostics)@ + location_diagnostics(
                    *project,
                    file@,
                    *rule,
                    sev,
                ));
            }
        },
        None => {
            assert(diagnostics@ =~= old(diagnostics)@ + Seq::<DiagnosticView>::empty());
        },
    }
}

fn evaluate_rule(
    project: &Project,
    specs: &Vec<Vec<String>>,
    index: &ImportIndex,
    file: &str,
    rule: &OrganizationCheck,
    sev: Severity,
    diagnostics: &mut DiagnosticCollection,
)
    requires
        extracted(*project, specs@),
        index.represents(import_edges(*project)),
    ensures
        final(diagnostics)@ == old(diagnostics)@ + rule_diagnostics(*project, file@, *rule, sev),
{
    let root = project.root.as_str();
    if !matches_glob(file, rule.match_pattern.glob.as_str(), root) || is_excluded(
        file,
        &rule.match_pattern.exclude_glob,
        root,
    ) {
        assert(rule_diagnostics(*project, file@, *rule, sev) =~= Seq::<DiagnosticView>::empty());
        assert(diagnostics@ =~= old(diagnostics)@ + Seq::<DiagnosticView>::empty());
        return ;
    }
    push_unmet(project, file, rule, sev, diagnostics);
    push_location(project, specs, index, file, rule, sev, diagnostics);
    assert(diagnostics@ =~= old(diagnostics)@ + rule_diagnostics(*project, file@, *rule, sev));
}

/// Evaluates every organization rule on every file of the project, file by
/// file and rule by rule, appending what they report.
pub fn check_file_organization(
    project: &Project,
    config: &Config,
    diagnostics: &mut DiagnosticCollection,
)
    ensures
        final(diagnostics)@ == old(diagnostics)@ + organization_diagnostics(
            *project,
            config.rules.file_organization.options.file_organization_checks@,
            config.rules.file_organization.severity,
        ),
{
    let checks = &config.rules.file_organization.options.file_organization_checks;
    let sev = config.rules.file_organization.severity;
    let specs = extract_all(project);
    let index = index_from_specifiers(project, &specs);
    let n = project.files.len();
    let mut f: usize = 0;
    assert(diagnostics@ =~= old(diagnostics)@ + diagnostics_upto(*project, 0, checks@, sev));
    while f < n
        invariant
            n == project.files@.len(),
            f <= n,
            extracted(*project, specs@),
            index.represents(import_edges(*project)),
            diagnostics@ == old(diagnostics)@ + diagnostics_upto(*project, f as int, checks@, sev),
        decreases n - f,
    {
        let file = project.files[f].path.as_str();
        let ghost base = diagnostics@;
        let mut r: usize = 0;
        assert(checks@.take(0) =~= Seq::<OrganizationCheck>::empty());
        assert(diagnostics@ =~= base + file_diagnostics(*project, f as int, checks@.take(0), sev));
        while r < checks.len()
            invariant
                n == project.files@.len(),
                f < n,
                file@ == project.files@[f as int].path@,
                extracted(*project, specs@),
                index.represents(import_edges(*project)),
                r <= checks@.len(),
                diagnostics@ == base + file_diagnostics(*project, f as int, checks@.take(r as int), sev),
            decreases checks@.len() - r,
        {
            let ghost t = checks@.take(r + 1);
            assert(t.drop_last() =~= checks@.take(r as int));
            assert(t.last() == checks@[r as int]);
            evaluate_rule(project, &specs, &index, file, &checks[r], sev, diagnostics);
            assert(diagnostics@ =~= base + file_diagnostics(*project, f as int, t, sev));
            r += 1;
        }
        assert(checks@.take(checks@.len() as int) =~= checks@);
        assert(diagnostics@ =~= old(diagnostics)@ + diagnostics_upto(*project, f + 1, checks@, sev));
        f += 1;
    }
}

} // verus!

verus! {

proof fn lemma_unmet_nonempty(
    project: Project,
    file: Seq<char>,
    rule: OrganizationCheck,
    sev: Severity,
    reqs: Seq<RequireKind>,
)
    ensures
        unmet_diagnostics(project, file, rule, sev, reqs).len() > 0 <==> exists|k: int|
            0 <= k < reqs.len() && !requirement_met(project.tree, file, reqs[k]),
    decreases reqs.len(),
{
    if reqs.len() > 0 {
        let d = reqs.drop_last();
        lemma_unmet_nonempty(project, file, rule, sev, d);
        if exists|k: int| 0 <= k < d.len() && !requirement_met(project.tree, file, d[k]) {
            let k = choose|k: int| 0 <= k < d.len() && !requirement_met(project.tree, file, d[k]);
            assert(reqs[k] == d[k]);
        }
        if exists|k: int| 0 <= k < reqs.len() && !requirement_met(project.tree, file, reqs[k]) {
            let k = choose|k: int|
                0 <= k < reqs.len() && !requirement_met(project.tree, file, reqs[k]);
            if k < reqs.len() - 1 {
                assert(d[k] == reqs[k]);
            }
        }
    }
}

/// A file receives sibling-requirement diagnostics from a rule exactly when
/// the rule's glob matches it, none of its exclude globs does, and some
/// required companion is missing beside it.
pub proof fn lemma_sibling_diagnostics_iff(
    project: Project,
    file: Seq<char>,
    rule: OrganizationCheck,
    sev: Severity,
)
    ensures
        sibling_diagnostics(project, file, rule, sev).len() > 0 <==> {
            &&& glob_matches_path(file, rule.match_pattern.glob@, project.root@)
            &&& !excluded_by(file, views(rule.match_pattern.exclude_glob@), project.root@)
            &&& exists|k: int|
                0 <= k < rule.require@.len() && !requirement_met(
                    project.tree,
                    file,
                    rule.require@[k],
                )
        },
{
    lemma_unmet_nonempty(project, file, rule, sev, rule.require@);
}

/// Evaluating the organization rules twice against the same files, tree and
/// configuration reports the same diagnostics, in the same order.
pub proof fn lemma_evaluation_repeatable(
    first: Project,
    second: Project,
    first_config: Config,
    second_config: Config,
)
    requires
        first == second,
        first_config == second_config,
    ensures
        organization_diagnostics(
            first,
            first_config.rules.file_organization.options.file_organization_checks@,
            first_config.rules.file_organization.severity,
        ) == organization_diagnostics(
            second,
            second_config.rules.file_organization.options.file_organization_checks@,
            second_config.rules.file_organization.severity,
        ),
{
}

} // verus!
