use ucp_schema::{
    lint, lint_file, load_schema_str, DocStore, FileStatus, Json, LintResult, Severity,
};

fn parse(s: &str) -> Json {
    load_schema_str(s).unwrap()
}

#[test]
fn lint_valid_schema() {
    let schema = parse(
        r##"{
        "$id": "https://example.com/test.json",
        "type": "object",
        "properties": {
            "id": { "type": "string" }
        }
    }"##,
    );
    let store = DocStore::new();
    let result = lint_file("/tmp/test.json", "/tmp", Ok(&schema), &store);
    assert_eq!(result.status, FileStatus::Clean);
    assert!(result.diagnostics.is_empty());
    assert_eq!(result.file, "test.json");
}

#[test]
fn lint_invalid_json_syntax() {
    let store = DocStore::new();
    let result = lint_file("/tmp/test.json", "/tmp", Err("invalid JSON: bad"), &store);
    assert_eq!(result.status, FileStatus::Error);
    assert_eq!(result.diagnostics.len(), 1);
    assert_eq!(result.diagnostics[0].code, "E001");
    assert_eq!(result.diagnostics[0].message, "syntax error: invalid JSON: bad");
}

#[test]
fn lint_broken_internal_ref() {
    let schema = parse(
        r##"{
        "$id": "https://example.com/test.json",
        "type": "object",
        "properties": {
            "data": { "$ref": "#/$defs/missing" }
        }
    }"##,
    );
    let store = DocStore::new();
    let result = lint_file("/tmp/test.json", "/tmp", Ok(&schema), &store);
    assert_eq!(result.status, FileStatus::Error);
    assert!(result.diagnostics.iter().any(|d| d.code == "E003"));
}

#[test]
fn lint_broken_file_ref() {
    let schema = parse(
        r##"{
        "$id": "https://example.com/test.json",
        "properties": {
            "data": { "$ref": "nonexistent.json" }
        }
    }"##,
    );
    let store = DocStore::new();
    let result = lint_file("/tmp/test.json", "/tmp", Ok(&schema), &store);
    assert_eq!(result.status, FileStatus::Error);
    assert!(result.diagnostics.iter().any(|d| d.code == "E002"));
}

#[test]
fn lint_invalid_ucp_request_value() {
    let schema = parse(
        r##"{
        "$id": "https://example.com/test.json",
        "properties": {
            "id": {
                "type": "string",
                "ucp_request": "invalid_value"
            }
        }
    }"##,
    );
    let store = DocStore::new();
    let result = lint_file("/tmp/test.json", "/tmp", Ok(&schema), &store);
    assert_eq!(result.status, FileStatus::Error);
    assert!(result.diagnostics.iter().any(|d| d.code == "E004"));
}

#[test]
fn lint_valid_ucp_annotations() {
    let schema = parse(
        r##"{
        "$id": "https://example.com/test.json",
        "properties": {
            "id": {
                "type": "string",
                "ucp_request": {
                    "create": "omit",
                    "update": "required"
                },
                "ucp_response": "omit"
            }
        }
    }"##,
    );
    let store = DocStore::new();
    let result = lint_file("/tmp/test.json", "/tmp", Ok(&schema), &store);
    assert_eq!(result.status, FileStatus::Clean);
    assert!(result.diagnostics.is_empty());
}

#[test]
fn lint_invalid_ucp_type() {
    let schema = parse(
        r##"{
        "$id": "https://example.com/test.json",
        "properties": {
            "id": {
                "type": "string",
                "ucp_request": 123
            }
        }
    }"##,
    );
    let store = DocStore::new();
    let result = lint_file("/tmp/test.json", "/tmp", Ok(&schema), &store);
    assert_eq!(result.status, FileStatus::Error);
    assert!(result.diagnostics.iter().any(|d| d.code == "E005"));
}

#[test]
fn lint_unknown_operation_warns() {
    let schema = parse(
        r##"{
        "$id": "https://example.com/test.json",
        "properties": {
            "id": {
                "type": "string",
                "ucp_request": { "destroy": "omit" }
            }
        }
    }"##,
    );
    let store = DocStore::new();
    let result = lint_file("/tmp/test.json", "/tmp", Ok(&schema), &store);
    assert_eq!(result.status, FileStatus::Warning);
    assert!(result.diagnostics.iter().any(|d| d.code == "W003"));
}

#[test]
fn lint_missing_id_warning() {
    let schema = parse(
        r##"{
        "type": "object",
        "properties": {}
    }"##,
    );
    let store = DocStore::new();
    let result = lint_file("/tmp/test.json", "/tmp", Ok(&schema), &store);
    assert_eq!(result.status, FileStatus::Warning);
    assert!(result.diagnostics.iter().any(|d| d.code == "W002"));
}

#[test]
fn lint_valid_ref_with_anchor() {
    let types = parse(
        r##"{
        "$id": "https://example.com/types.json",
        "$defs": {"thing": {"type": "string"}}
    }"##,
    );
    let main_schema = parse(
        r##"{
        "$id": "https://example.com/main.json",
        "properties": {"x": {"$ref": "types.json#/$defs/thing"}}
    }"##,
    );
    let mut store = DocStore::new();
    store.insert("/srv/types.json".to_string(), types);
    let result = lint_file("/srv/main.json", "/srv", Ok(&main_schema), &store);
    assert_eq!(result.status, FileStatus::Clean);
}

#[test]
fn lint_broken_ref_anchor() {
    let types = parse(
        r##"{
        "$id": "https://example.com/types.json",
        "$defs": {}
    }"##,
    );
    let main_schema = parse(
        r##"{
        "$id": "https://example.com/main.json",
        "properties": {"x": {"$ref": "types.json#/$defs/missing"}}
    }"##,
    );
    let mut store = DocStore::new();
    store.insert("/srv/types.json".to_string(), types);
    let result = lint_file("/srv/main.json", "/srv", Ok(&main_schema), &store);
    assert_eq!(result.status, FileStatus::Error);
    assert!(result.diagnostics.iter().any(|d| d.code == "E003"));
}

#[test]
fn lint_url_refs_skipped() {
    let schema = parse(
        r##"{
        "$id": "https://example.com/test.json",
        "properties": {"x": {"$ref": "https://ucp.dev/schemas/checkout.json"}}
    }"##,
    );
    let store = DocStore::new();
    let result = lint_file("/tmp/test.json", "/tmp", Ok(&schema), &store);
    assert_eq!(result.status, FileStatus::Clean);
}

#[test]
fn lint_directory() {
    let valid = parse(r##"{"$id": "https://example.com/valid.json", "type": "object"}"##);
    let store = DocStore::new();
    let good = lint_file("/srv/valid.json", "/srv", Ok(&valid), &store);
    let bad = lint_file("/srv/invalid.json", "/srv", Err("invalid JSON: oops"), &store);

    let result = lint("/srv", false, vec![good, bad]);
    assert_eq!(result.files_checked, 2);
    assert_eq!(result.passed, 1);
    assert_eq!(result.failed, 1);
    assert_eq!(result.errors, 1);
    assert!(!result.is_ok());
}

#[test]
fn lint_strict_mode() {
    let warned = parse(r##"{"type": "object"}"##);
    let store = DocStore::new();

    let result = lint(
        "/srv",
        false,
        vec![lint_file("/srv/test.json", "/srv", Ok(&warned), &store)],
    );
    assert_eq!(result.files_checked, 1);
    assert_eq!(result.passed, 1);
    assert_eq!(result.failed, 0);

    let result: LintResult = lint(
        "/srv",
        true,
        vec![lint_file("/srv/test.json", "/srv", Ok(&warned), &store)],
    );
    assert_eq!(result.files_checked, 1);
    assert_eq!(result.passed, 0);
    assert_eq!(result.failed, 1);
    assert_eq!(result.warnings, 1);
}

#[test]
fn lint_diagnostic_severities() {
    let schema = parse(
        r##"{
        "properties": {
            "id": { "ucp_request": "bogus" }
        }
    }"##,
    );
    let store = DocStore::new();
    let result = lint_file("/tmp/t.json", "/tmp", Ok(&schema), &store);
    assert!(result.diagnostics.iter().any(|d| d.severity == Severity::Error));
    assert!(result.diagnostics.iter().any(|d| d.severity == Severity::Warning));
    assert_eq!(result.status, FileStatus::Error);
}
