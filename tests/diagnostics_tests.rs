use naechste::config::Severity;
use naechste::diagnostics::{Diagnostic, DiagnosticCollection};

fn diag(severity: Severity, rule: &str, message: &str, file: &str, line: Option<usize>) -> Diagnostic {
    Diagnostic {
        severity,
        rule: rule.to_string(),
        message: message.to_string(),
        file: file.to_string(),
        line,
    }
}

#[test]
fn test_diagnostic_collection_new() {
    let collection = DiagnosticCollection::new();
    assert_eq!(collection.diagnostics.len(), 0);
    assert!(!collection.has_errors());
    assert_eq!(collection.error_count(), 0);
    assert_eq!(collection.warning_count(), 0);
}

#[test]
fn test_add_diagnostic() {
    let mut collection = DiagnosticCollection::new();
    collection.add(diag(Severity::Warn, "test-rule", "Test warning", "test.ts", Some(10)));
    assert_eq!(collection.diagnostics.len(), 1);
    assert_eq!(collection.warning_count(), 1);
    assert_eq!(collection.error_count(), 0);
    assert!(!collection.has_errors());
}

#[test]
fn test_has_errors() {
    let mut collection = DiagnosticCollection::new();
    collection.add(diag(Severity::Warn, "test-rule", "Test warning", "test.ts", None));
    assert!(!collection.has_errors());
    collection.add(diag(Severity::Error, "test-rule", "Test error", "test.ts", None));
    assert!(collection.has_errors());
}

#[test]
fn test_error_count() {
    let mut collection = DiagnosticCollection::new();
    collection.add(diag(Severity::Error, "rule1", "Error 1", "test1.ts", None));
    collection.add(diag(Severity::Warn, "rule2", "Warning 1", "test2.ts", None));
    collection.add(diag(Severity::Error, "rule3", "Error 2", "test3.ts", None));
    assert_eq!(collection.error_count(), 2);
    assert_eq!(collection.warning_count(), 1);
}

#[test]
fn add_keeps_insertion_order() {
    let mut collection = DiagnosticCollection::new();
    collection.add(diag(Severity::Error, "first", "a", "a.ts", None));
    collection.add(diag(Severity::Warn, "second", "b", "b.ts", Some(3)));
    assert_eq!(collection.diagnostics[0].rule, "first");
    assert_eq!(collection.diagnostics[1].rule, "second");
    assert_eq!(collection.diagnostics[1].line, Some(3));
}
