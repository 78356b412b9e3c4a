//! The rule configuration: severities, per-rule options, and the declarative
//! file-organization rules.

use vstd::prelude::*;

verus! {

#[derive(Clone, Copy, Debug, PartialEq, Eq, Structural)]
pub enum Severity {
    Warn,
    Error,
}

#[derive(Clone, Copy, Debug, PartialEq, Eq, Structural)]
pub enum FilenameStyle {
    KebabCase,
    CamelCase,
    PascalCase,
    SnakeCase,
}

/// Extra companion-file patterns; `*` in a pattern stands for the component's
/// stem and `{ext}` for its extension.
#[derive(Clone, Debug)]
pub struct CompanionFilePatterns {
    /// Integration test patterns such as `*.test.int.ts`.
    pub integration_tests: Vec<String>,
    /// Page user scenario file names such as `page.us.md`.
    pub page_user_scenarios: Vec<String>,
    /// Named categories, each with its patterns, checked in this order.
    pub custom: Vec<(String, Vec<String>)>,
}

impl Default for CompanionFilePatterns {
    fn default() -> (r: Self)
        ensures
            r.integration_tests@.len() == 0,
            r.page_user_scenarios@.len() == 0,
            r.custom@.len() == 0,
    {
        CompanionFilePatterns {
            integration_tests: Vec::new(),
            page_user_scenarios: Vec::new(),
            custom: Vec::new(),
        }
    }
}

/// Which files an organization rule applies to.
#[derive(Clone, Debug)]
pub struct MatchPattern {
    /// Include glob, matched against the project-relative path.
    pub glob: String,
    /// Globs whose match removes a file from the rule.
    pub exclude_glob: Vec<String>,
}

/// A companion file that must sit in the same directory as a matched file.
#[derive(Clone, Debug)]
pub enum RequireKind {
    /// A sibling with exactly this name.
    SiblingExact { name: String },
    /// At least one sibling whose name matches this glob.
    SiblingGlob { glob: String },
}

/// The trigger of a placement constraint: an importer glob and the
/// specifier regular expressions.
#[derive(Clone, Debug)]
pub struct WhenImportedBy {
    pub importer_glob: String,
    pub import_path_matches: Vec<String>,
}

/// The placement constraint: allowed directory prefixes and an optional message.
#[derive(Clone, Debug)]
pub struct EnforceLocation {
    pub must_be_under: Vec<String>,
    pub message: Option<String>,
}

/// One declarative organization rule.
#[derive(Clone, Debug)]
pub struct OrganizationCheck {
    /// Unique identifier; diagnostics are named `file-organization:<id>`.
    pub id: String,
    pub description: Option<String>,
    /// The files the rule applies to.
    pub match_pattern: MatchPattern,
    /// Companion files required beside every matched file.
    pub require: Vec<RequireKind>,
    pub when_imported_by: Option<WhenImportedBy>,
    pub enforce_location: Option<EnforceLocation>,
}

#[derive(Clone, Debug)]
pub struct RuleOptions {
    pub max_nesting_depth: usize,
    pub filename_style: FilenameStyle,
    pub require_test_files: bool,
    pub require_story_files: bool,
    pub companion_file_patterns: CompanionFilePatterns,
    pub file_organization_checks: Vec<OrganizationCheck>,
}

/// The default nesting limit below an `app` or `pages` directory.
pub const DEFAULT_MAX_DEPTH: usize = 3;

pub fn default_severity() -> (r: Severity)
    ensures
        r == Severity::Warn,
{
    Severity::Warn
}

pub fn default_max_depth() -> (r: usize)
    ensures
        r == DEFAULT_MAX_DEPTH,
{
    DEFAULT_MAX_DEPTH
}

pub fn default_filename_style() -> (r: FilenameStyle)
    ensures
        r == FilenameStyle::KebabCase,
{
    FilenameStyle::KebabCase
}

impl RuleOptions {
    pub open spec fn is_default(&self) -> bool {
        &&& self.max_nesting_depth == DEFAULT_MAX_DEPTH
        &&& self.filename_style == FilenameStyle::KebabCase
        &&& !self.require_test_files
        &&& !self.require_story_files
        &&& self.companion_file_patterns.integration_tests@.len() == 0
        &&& self.companion_file_patterns.page_user_scenarios@.len() == 0
        &&& self.companion_file_patterns.custom@.len() == 0
        &&& self.file_organization_checks@.len() == 0
    }
}

impl Default for RuleOptions {
    fn default() -> (r: Self)
        ensures
            r.is_default(),
    {
        RuleOptions {
            max_nesting_depth: default_max_depth(),
            filename_style: default_filename_style(),
            require_test_files: false,
            require_story_files: false,
            companion_file_patterns: CompanionFilePatterns::default(),
            file_organization_checks: Vec::new(),
        }
    }
}

#[derive(Clone, Debug)]
pub struct RuleConfig {
    pub severity: Severity,
    pub options: RuleOptions,
}

impl RuleConfig {
    pub open spec fn is_default(&self) -> bool {
        self.severity == Severity::Warn && self.options.is_default()
    }
}

/// A rule at warning severity with default options.
pub fn default_rule_config() -> (r: RuleConfig)
    ensures
        r.is_default(),
{
    RuleConfig { severity: default_severity(), options: RuleOptions::default() }
}

#[derive(Clone, Debug)]
pub struct Rules {
    pub server_side_exports: RuleConfig,
    pub component_nesting_depth: RuleConfig,
    pub filename_style_consistency: RuleConfig,
    pub missing_companion_files: RuleConfig,
    pub file_organization: RuleConfig,
}

impl Default for Rules {
    fn default() -> (r: Self)
        ensures
            r.server_side_exports.is_default(),
            r.component_nesting_depth.is_default(),
            r.filename_style_consistency.is_default(),
            r.missing_companion_files.is_default(),
            r.file_organization.is_default(),
    {
        Rules {
            server_side_exports: default_rule_config(),
            component_nesting_depth: default_rule_config(),
            filename_style_consistency: default_rule_config(),
            missing_companion_files: default_rule_config(),
            file_organization: default_rule_config(),
        }
    }
}

#[derive(Clone, Debug)]
pub struct Config {
    pub rules: Rules,
}

impl Default for Config {
    fn default() -> (r: Self)
        ensures
            r.rules.server_side_exports.is_default(),
            r.rules.component_nesting_depth.is_default(),
            r.rules.filename_style_consistency.is_default(),
            r.rules.missing_companion_files.is_default(),
            r.rules.file_organization.is_default(),
    {
        Config { rules: Rules::default() }
    }
}

} // verus!
