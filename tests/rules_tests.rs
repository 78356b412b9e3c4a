use naechste::config::{Config, FilenameStyle};
use naechste::diagnostics::DiagnosticCollection;
use naechste::project::FileTree;
use naechste::text::{decimal_text, trim_white_space};
use naechste::rules::{
    check_component_nesting_depth, check_filename_style, check_missing_companion_files,
    check_server_side_exports, count_depth, is_camel_case, is_kebab_case, is_pascal_case,
    is_snake_case, resolve_companion_pattern,
};

fn strings(items: &[&str]) -> Vec<String> {
    items.iter().map(|s| s.to_string()).collect()
}

fn get_test_config() -> Config {
    Config::default()
}

fn tree_with(files: &[&str], dir: &str) -> FileTree {
    FileTree::new(&strings(files), &strings(&[dir]))
}

#[test]
fn test_is_kebab_case() {
    assert!(is_kebab_case("my-component"));
    assert!(is_kebab_case("button"));
    assert!(is_kebab_case("my-long-component-name"));
    assert!(is_kebab_case("component123"));
    assert!(is_kebab_case("component-123"));

    assert!(!is_kebab_case("MyComponent"));
    assert!(!is_kebab_case("my_component"));
    assert!(!is_kebab_case("myComponent"));
    assert!(!is_kebab_case("My-Component"));
    assert!(!is_kebab_case("-my-component"));
    assert!(!is_kebab_case("my-component-"));
}

#[test]
fn test_is_camel_case() {
    assert!(is_camel_case("myComponent"));
    assert!(is_camel_case("myLongComponentName"));
    assert!(is_camel_case("component123Name"));

    assert!(!is_camel_case("MyComponent"));
    assert!(!is_camel_case("my-component"));
    assert!(!is_camel_case("my_component"));
    assert!(!is_camel_case("component"));
    assert!(!is_camel_case("COMPONENT"));
}

#[test]
fn test_is_pascal_case() {
    assert!(is_pascal_case("MyComponent"));
    assert!(is_pascal_case("Button"));
    assert!(is_pascal_case("MyLongComponentName"));
    assert!(is_pascal_case("Component123"));

    assert!(!is_pascal_case("myComponent"));
    assert!(!is_pascal_case("my-component"));
    assert!(!is_pascal_case("my_component"));
    assert!(!is_pascal_case("COMPONENT"));
}

#[test]
fn test_is_snake_case() {
    assert!(is_snake_case("my_component"));
    assert!(is_snake_case("button"));
    assert!(is_snake_case("my_long_component_name"));
    assert!(is_snake_case("component_123"));

    assert!(!is_snake_case("MyComponent"));
    assert!(!is_snake_case("my-component"));
    assert!(!is_snake_case("myComponent"));
    assert!(!is_snake_case("_my_component"));
    assert!(!is_snake_case("my_component_"));
}

#[test]
fn test_server_side_exports_in_client_component() {
    let file_path = "/tmp/naechste-tests-server-exports/MyComponent.tsx";
    let content = r#"
'use client'

export function MyComponent() {
    return <div>Hello</div>;
}

export async function getServerSideProps() {
    return { props: {} };
}
"#;
    let config = get_test_config();
    let mut diagnostics = DiagnosticCollection::new();
    check_server_side_exports(file_path, content, &config, &mut diagnostics);

    assert_eq!(diagnostics.diagnostics.len(), 1);
    assert!(diagnostics.diagnostics[0].message.contains("getServerSideProps"));
    assert_eq!(diagnostics.diagnostics[0].rule, "server-side-exports");
}

#[test]
fn test_server_side_exports_without_use_client() {
    let file_path = "/tmp/naechste-tests-no-use-client/page.tsx";
    let content = r#"
export async function getServerSideProps() {
    return { props: {} };
}

export default function Page() {
    return <div>Hello</div>;
}
"#;
    let config = get_test_config();
    let mut diagnostics = DiagnosticCollection::new();
    check_server_side_exports(file_path, content, &config, &mut diagnostics);
    assert_eq!(diagnostics.diagnostics.len(), 0);
}

#[test]
fn test_multiple_server_exports_detected() {
    let file_path = "/tmp/naechste-tests-multiple-exports/Component.tsx";
    let content = r#"
"use client"

export async function getServerSideProps() {}
export const getStaticProps = async () => {};
export function getStaticPaths() {}
"#;
    let config = get_test_config();
    let mut diagnostics = DiagnosticCollection::new();
    check_server_side_exports(file_path, content, &config, &mut diagnostics);
    assert_eq!(diagnostics.diagnostics.len(), 3);
}

#[test]
fn use_client_directive_is_recognised_after_trimming() {
    let content = "   'use client'  \r\nexport const getInitialProps = 1;";
    let config = get_test_config();
    let mut diagnostics = DiagnosticCollection::new();
    check_server_side_exports("/p/C.tsx", content, &config, &mut diagnostics);
    assert_eq!(diagnostics.diagnostics.len(), 1);
    assert_eq!(
        diagnostics.diagnostics[0].message,
        "Server-side export 'getInitialProps' found in client component"
    );
    assert_eq!(diagnostics.diagnostics[0].file, "/p/C.tsx");
}

#[test]
fn test_component_nesting_depth_within_limit() {
    let config = get_test_config();
    let mut diagnostics = DiagnosticCollection::new();
    check_component_nesting_depth(
        "/tmp/naechste-tests-nesting-ok/app/components/Button.tsx",
        &config,
        &mut diagnostics,
    );
    assert_eq!(diagnostics.diagnostics.len(), 0);
}

#[test]
fn test_component_nesting_depth_exceeds_limit() {
    let config = get_test_config();
    let mut diagnostics = DiagnosticCollection::new();
    check_component_nesting_depth(
        "/tmp/naechste-tests-nesting-deep/app/components/ui/buttons/primary/Button.tsx",
        &config,
        &mut diagnostics,
    );
    assert_eq!(diagnostics.diagnostics.len(), 1);
    assert_eq!(diagnostics.diagnostics[0].rule, "component-nesting-depth");
}

#[test]
fn test_component_nesting_depth_custom_limit() {
    let mut config = get_test_config();
    config.rules.component_nesting_depth.options.max_nesting_depth = 2;
    let mut diagnostics = DiagnosticCollection::new();
    check_component_nesting_depth(
        "/tmp/naechste-tests-nesting-custom/app/components/ui/Button.tsx",
        &config,
        &mut diagnostics,
    );
    assert_eq!(diagnostics.diagnostics.len(), 1);
}

#[test]
fn nesting_message_gives_depth_and_limit() {
    let config = get_test_config();
    let mut diagnostics = DiagnosticCollection::new();
    check_component_nesting_depth("/r/app/a/b/c/d/deep.tsx", &config, &mut diagnostics);
    assert_eq!(diagnostics.diagnostics.len(), 1);
    assert_eq!(
        diagnostics.diagnostics[0].message,
        "Component nesting depth 5 exceeds maximum of 3"
    );
}

#[test]
fn nesting_is_counted_below_pages_and_not_elsewhere() {
    let mut config = get_test_config();
    config.rules.component_nesting_depth.options.max_nesting_depth = 1;
    let mut diagnostics = DiagnosticCollection::new();
    check_component_nesting_depth("/r/pages/a/b.tsx", &config, &mut diagnostics);
    assert_eq!(diagnostics.diagnostics.len(), 1);
    let mut other = DiagnosticCollection::new();
    check_component_nesting_depth("/r/src/a/b/c/d/e.tsx", &config, &mut other);
    assert_eq!(other.diagnostics.len(), 0);
}

#[test]
fn count_depth_skips_empty_components() {
    assert_eq!(count_depth("a//b/"), 2);
    assert_eq!(count_depth(""), 0);
    assert_eq!(count_depth("components/ui/Button.tsx"), 3);
}

#[test]
fn test_filename_style_kebab_case() {
    let mut config = get_test_config();
    config.rules.filename_style_consistency.options.filename_style = FilenameStyle::KebabCase;

    let mut diagnostics = DiagnosticCollection::new();
    check_filename_style("/tmp/naechste-tests-kebab/my-component.tsx", &config, &mut diagnostics);
    assert_eq!(diagnostics.diagnostics.len(), 0);

    let mut diagnostics = DiagnosticCollection::new();
    check_filename_style("/tmp/naechste-tests-kebab/MyComponent.tsx", &config, &mut diagnostics);
    assert_eq!(diagnostics.diagnostics.len(), 1);
    assert_eq!(diagnostics.diagnostics[0].rule, "filename-style-consistency");
}

#[test]
fn test_filename_style_pascal_case() {
    let mut config = get_test_config();
    config.rules.filename_style_consistency.options.filename_style = FilenameStyle::PascalCase;

    let mut diagnostics = DiagnosticCollection::new();
    check_filename_style("/tmp/naechste-tests-pascal/MyComponent.tsx", &config, &mut diagnostics);
    assert_eq!(diagnostics.diagnostics.len(), 0);

    let mut diagnostics = DiagnosticCollection::new();
    check_filename_style("/tmp/naechste-tests-pascal/my-component.tsx", &config, &mut diagnostics);
    assert_eq!(diagnostics.diagnostics.len(), 1);
}

#[test]
fn test_filename_style_camel_case() {
    let mut config = get_test_config();
    config.rules.filename_style_consistency.options.filename_style = FilenameStyle::CamelCase;

    let mut diagnostics = DiagnosticCollection::new();
    check_filename_style("/tmp/naechste-tests-camel/myComponent.tsx", &config, &mut diagnostics);
    assert_eq!(diagnostics.diagnostics.len(), 0);

    let mut diagnostics = DiagnosticCollection::new();
    check_filename_style("/tmp/naechste-tests-camel/MyComponent.tsx", &config, &mut diagnostics);
    assert_eq!(diagnostics.diagnostics.len(), 1);
}

#[test]
fn test_filename_style_snake_case() {
    let mut config = get_test_config();
    config.rules.filename_style_consistency.options.filename_style = FilenameStyle::SnakeCase;

    let mut diagnostics = DiagnosticCollection::new();
    check_filename_style("/tmp/naechste-tests-snake/my_component.tsx", &config, &mut diagnostics);
    assert_eq!(diagnostics.diagnostics.len(), 0);

    let mut diagnostics = DiagnosticCollection::new();
    check_filename_style("/tmp/naechste-tests-snake/MyComponent.tsx", &config, &mut diagnostics);
    assert_eq!(diagnostics.diagnostics.len(), 1);
}

#[test]
fn test_filename_special_files_skipped() {
    let special_files = vec!["page.tsx", "layout.tsx", "loading.tsx", "error.tsx"];
    let mut config = get_test_config();
    config.rules.filename_style_consistency.options.filename_style = FilenameStyle::PascalCase;
    for filename in special_files {
        let file_path = format!("/tmp/naechste-tests-special/{}", filename);
        let mut diagnostics = DiagnosticCollection::new();
        check_filename_style(&file_path, &config, &mut diagnostics);
        assert_eq!(diagnostics.diagnostics.len(), 0, "Special file {} should be skipped", filename);
    }
}

#[test]
fn filename_message_names_stem_and_style() {
    let config = get_test_config();
    let mut diagnostics = DiagnosticCollection::new();
    check_filename_style("/r/app/BadName.tsx", &config, &mut diagnostics);
    assert_eq!(diagnostics.diagnostics.len(), 1);
    assert_eq!(
        diagnostics.diagnostics[0].message,
        "Filename 'BadName' does not match expected style: KebabCase"
    );
}

#[test]
fn test_missing_test_file_required() {
    let dir = "/tmp/naechste-tests-missing-test";
    let component_file = "/tmp/naechste-tests-missing-test/Button.tsx";
    let tree = tree_with(&[component_file], dir);
    let mut config = get_test_config();
    config.rules.missing_companion_files.options.require_test_files = true;

    let mut diagnostics = DiagnosticCollection::new();
    check_missing_companion_files(component_file, &tree, &config, &mut diagnostics);
    assert_eq!(diagnostics.diagnostics.len(), 1);
    assert!(diagnostics.diagnostics[0].message.contains("Missing test file"));
    assert_eq!(diagnostics.diagnostics[0].rule, "missing-companion-files");
}

#[test]
fn test_test_file_exists() {
    let dir = "/tmp/naechste-tests-with-test";
    let component_file = "/tmp/naechste-tests-with-test/Button.tsx";
    let tree = tree_with(&[component_file, "/tmp/naechste-tests-with-test/Button.test.tsx"], dir);
    let mut config = get_test_config();
    config.rules.missing_companion_files.options.require_test_files = true;

    let mut diagnostics = DiagnosticCollection::new();
    check_missing_companion_files(component_file, &tree, &config, &mut diagnostics);
    assert_eq!(diagnostics.diagnostics.len(), 0);
}

#[test]
fn test_spec_file_exists() {
    let dir = "/tmp/naechste-tests-with-spec";
    let component_file = "/tmp/naechste-tests-with-spec/Button.tsx";
    let tree = tree_with(&[component_file, "/tmp/naechste-tests-with-spec/Button.spec.tsx"], dir);
    let mut config = get_test_config();
    config.rules.missing_companion_files.options.require_test_files = true;

    let mut diagnostics = DiagnosticCollection::new();
    check_missing_companion_files(component_file, &tree, &config, &mut diagnostics);
    assert_eq!(diagnostics.diagnostics.len(), 0);
}

#[test]
fn test_missing_story_file_required() {
    let dir = "/tmp/naechste-tests-missing-story";
    let component_file = "/tmp/naechste-tests-missing-story/Button.tsx";
    let tree = tree_with(&[component_file], dir);
    let mut config = get_test_config();
    config.rules.missing_companion_files.options.require_story_files = true;

    let mut diagnostics = DiagnosticCollection::new();
    check_missing_companion_files(component_file, &tree, &config, &mut diagnostics);
    assert_eq!(diagnostics.diagnostics.len(), 1);
    assert!(diagnostics.diagnostics[0].message.contains("Missing story file"));
}

#[test]
fn test_story_file_exists() {
    let dir = "/tmp/naechste-tests-with-story";
    let component_file = "/tmp/naechste-tests-with-story/Button.tsx";
    let tree = tree_with(&[component_file, "/tmp/naechste-tests-with-story/Button.stories.tsx"], dir);
    let mut config = get_test_config();
    config.rules.missing_companion_files.options.require_story_files = true;

    let mut diagnostics = DiagnosticCollection::new();
    check_missing_companion_files(component_file, &tree, &config, &mut diagnostics);
    assert_eq!(diagnostics.diagnostics.len(), 0);
}

#[test]
fn test_missing_both_test_and_story() {
    let dir = "/tmp/naechste-tests-missing-both";
    let component_file = "/tmp/naechste-tests-missing-both/Button.tsx";
    let tree = tree_with(&[component_file], dir);
    let mut config = get_test_config();
    config.rules.missing_companion_files.options.require_test_files = true;
    config.rules.missing_companion_files.options.require_story_files = true;

    let mut diagnostics = DiagnosticCollection::new();
    check_missing_companion_files(component_file, &tree, &config, &mut diagnostics);
    assert_eq!(diagnostics.diagnostics.len(), 2);
}

#[test]
fn test_non_component_files_skipped() {
    let dir = "/tmp/naechste-tests-non-component";
    let css_file = "/tmp/naechste-tests-non-component/styles.css";
    let tree = tree_with(&[css_file], dir);
    let mut config = get_test_config();
    config.rules.missing_companion_files.options.require_test_files = true;

    let mut diagnostics = DiagnosticCollection::new();
    check_missing_companion_files(css_file, &tree, &config, &mut diagnostics);
    assert_eq!(diagnostics.diagnostics.len(), 0);
}

#[test]
fn test_integration_test_pattern_missing() {
    let dir = "/tmp/naechste-tests-integration-missing";
    let component_file = "/tmp/naechste-tests-integration-missing/Button.tsx";
    let tree = tree_with(&[component_file], dir);
    let mut config = get_test_config();
    config.rules.missing_companion_files.options.companion_file_patterns.integration_tests =
        vec!["*.test.int.ts".to_string(), "*.test.int.tsx".to_string()];

    let mut diagnostics = DiagnosticCollection::new();
    check_missing_companion_files(component_file, &tree, &config, &mut diagnostics);
    assert_eq!(diagnostics.diagnostics.len(), 1);
    assert!(diagnostics.diagnostics[0].message.contains("Missing integration test file"));
}

#[test]
fn integration_message_lists_the_expected_patterns() {
    let component_file = "/r/Button.tsx";
    let tree = tree_with(&[component_file], "/r");
    let mut config = get_test_config();
    config.rules.missing_companion_files.options.companion_file_patterns.integration_tests =
        vec!["*.test.int.ts".to_string(), "*.test.int.tsx".to_string()];
    let mut diagnostics = DiagnosticCollection::new();
    check_missing_companion_files(component_file, &tree, &config, &mut diagnostics);
    assert_eq!(
        diagnostics.diagnostics[0].message,
        "Missing integration test file for component 'Button' (expected patterns: [\"*.test.int.ts\", \"*.test.int.tsx\"])"
    );
}

#[test]
fn test_integration_test_pattern_exists() {
    let dir = "/tmp/naechste-tests-integration-exists";
    let component_file = "/tmp/naechste-tests-integration-exists/Button.tsx";
    let tree = tree_with(
        &[component_file, "/tmp/naechste-tests-integration-exists/Button.test.int.ts"],
        dir,
    );
    let mut config = get_test_config();
    config.rules.missing_companion_files.options.companion_file_patterns.integration_tests =
        vec!["*.test.int.ts".to_string()];

    let mut diagnostics = DiagnosticCollection::new();
    check_missing_companion_files(component_file, &tree, &config, &mut diagnostics);
    assert_eq!(diagnostics.diagnostics.len(), 0);
}

#[test]
fn test_page_user_scenario_missing() {
    let dir = "/tmp/naechste-tests-page-us-missing";
    let page_file = "/tmp/naechste-tests-page-us-missing/page.tsx";
    let tree = tree_with(&[page_file], dir);
    let mut config = get_test_config();
    config.rules.missing_companion_files.options.companion_file_patterns.page_user_scenarios =
        vec!["page.us.md".to_string()];

    let mut diagnostics = DiagnosticCollection::new();
    check_missing_companion_files(page_file, &tree, &config, &mut diagnostics);
    assert_eq!(diagnostics.diagnostics.len(), 1);
    assert!(diagnostics.diagnostics[0].message.contains("Missing user scenario file"));
}

#[test]
fn test_page_user_scenario_exists() {
    let dir = "/tmp/naechste-tests-page-us-exists";
    let page_file = "/tmp/naechste-tests-page-us-exists/page.tsx";
    let tree = tree_with(&[page_file, "/tmp/naechste-tests-page-us-exists/page.us.md"], dir);
    let mut config = get_test_config();
    config.rules.missing_companion_files.options.companion_file_patterns.page_user_scenarios =
        vec!["page.us.md".to_string()];

    let mut diagnostics = DiagnosticCollection::new();
    check_missing_companion_files(page_file, &tree, &config, &mut diagnostics);
    assert_eq!(diagnostics.diagnostics.len(), 0);
}

#[test]
fn test_page_user_scenario_not_checked_for_components() {
    let dir = "/tmp/naechste-tests-page-us-component";
    let component_file = "/tmp/naechste-tests-page-us-component/Button.tsx";
    let tree = tree_with(&[component_file], dir);
    let mut config = get_test_config();
    config.rules.missing_companion_files.options.companion_file_patterns.page_user_scenarios =
        vec!["page.us.md".to_string()];

    let mut diagnostics = DiagnosticCollection::new();
    check_missing_companion_files(component_file, &tree, &config, &mut diagnostics);
    assert_eq!(diagnostics.diagnostics.len(), 0);
}

#[test]
fn test_custom_companion_pattern_missing() {
    let dir = "/tmp/naechste-tests-custom-missing";
    let component_file = "/tmp/naechste-tests-custom-missing/Button.tsx";
    let tree = tree_with(&[component_file], dir);
    let mut config = get_test_config();
    config.rules.missing_companion_files.options.companion_file_patterns.custom =
        vec![("accessibility_tests".to_string(), vec!["*.a11y.ts".to_string()])];

    let mut diagnostics = DiagnosticCollection::new();
    check_missing_companion_files(component_file, &tree, &config, &mut diagnostics);
    assert_eq!(diagnostics.diagnostics.len(), 1);
    assert!(diagnostics.diagnostics[0].message.contains("Missing accessibility_tests file"));
}

#[test]
fn test_custom_companion_pattern_exists() {
    let dir = "/tmp/naechste-tests-custom-exists";
    let component_file = "/tmp/naechste-tests-custom-exists/Button.tsx";
    let tree = tree_with(&[component_file, "/tmp/naechste-tests-custom-exists/Button.a11y.ts"], dir);
    let mut config = get_test_config();
    config.rules.missing_companion_files.options.companion_file_patterns.custom =
        vec![("accessibility_tests".to_string(), vec!["*.a11y.ts".to_string()])];

    let mut diagnostics = DiagnosticCollection::new();
    check_missing_companion_files(component_file, &tree, &config, &mut diagnostics);
    assert_eq!(diagnostics.diagnostics.len(), 0);
}

#[test]
fn test_resolve_companion_pattern() {
    assert_eq!(resolve_companion_pattern("*.test.int.ts", "Button", "tsx"), "Button.test.int.ts");
    assert_eq!(resolve_companion_pattern("*.stories.{ext}", "Modal", "tsx"), "Modal.stories.tsx");
    assert_eq!(resolve_companion_pattern("page.us.md", "page", "tsx"), "page.us.md");
}

#[test]
fn companion_files_themselves_are_not_checked() {
    let tree = tree_with(&["/r/Button.test.tsx"], "/r");
    let mut config = get_test_config();
    config.rules.missing_companion_files.options.require_test_files = true;
    let mut diagnostics = DiagnosticCollection::new();
    check_missing_companion_files("/r/Button.test.tsx", &tree, &config, &mut diagnostics);
    assert_eq!(diagnostics.diagnostics.len(), 0);
}

#[test]
fn tests_folder_satisfies_the_test_requirement() {
    let tree = FileTree::new(
        &strings(&["/r/Button.tsx", "/r/__tests__/Button.tsx"]),
        &strings(&["/r", "/r/__tests__"]),
    );
    let mut config = get_test_config();
    config.rules.missing_companion_files.options.require_test_files = true;
    let mut diagnostics = DiagnosticCollection::new();
    check_missing_companion_files("/r/Button.tsx", &tree, &config, &mut diagnostics);
    assert_eq!(diagnostics.diagnostics.len(), 0);
}

#[test]
fn trim_removes_unicode_white_space_only() {
    assert_eq!(trim_white_space("\u{3000}\t 'use client'\u{a0}\r"), "'use client'");
    assert_eq!(trim_white_space("x"), "x");
    assert_eq!(trim_white_space("  "), "");
    assert_eq!(trim_white_space("\u{200b}a"), "\u{200b}a");
}

#[test]
fn decimal_text_writes_digits() {
    assert_eq!(decimal_text(0), "0");
    assert_eq!(decimal_text(7), "7");
    assert_eq!(decimal_text(1234567890), "1234567890");
    assert_eq!(decimal_text(usize::MAX), usize::MAX.to_string());
}

#[test]
fn use_client_after_unicode_space_is_recognised() {
    let config = get_test_config();
    let mut diagnostics = DiagnosticCollection::new();
    check_server_side_exports("/p/C.tsx", "\u{3000}\"use client\"\nexport function getStaticPaths() {}", &config, &mut diagnostics);
    assert_eq!(diagnostics.diagnostics.len(), 1);
}
