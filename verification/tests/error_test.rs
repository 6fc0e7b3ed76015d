use ucp_schema::{ComposeError, ResolveError, SchemaError, ValidateError};

#[test]
fn resolve_error_exit_codes() {
    let err = ResolveError::FileNotFound { path: "test.json".to_string() };
    assert_eq!(err.exit_code(), 3);

    let err = ResolveError::InvalidAnnotationType {
        path: "/properties/id".into(),
        actual: "number".into(),
    };
    assert_eq!(err.exit_code(), 2);

    let err = ResolveError::UnknownVisibility {
        path: "/properties/id".into(),
        value: "readonly".into(),
    };
    assert_eq!(err.exit_code(), 2);
}

#[test]
fn validate_error_exit_codes() {
    let err = ValidateError::Invalid {
        errors: vec![SchemaError { path: "/id".into(), message: "missing required field".into() }],
    };
    assert_eq!(err.exit_code(), 1);
}

#[test]
fn compose_error_exit_codes() {
    let err = ComposeError::SchemaFetch { url: "x".into(), message: "y".into() };
    assert_eq!(err.exit_code(), 3);
    let err = ComposeError::NoRootCapability;
    assert_eq!(err.exit_code(), 2);
}

#[test]
fn schema_error_display() {
    let err = SchemaError {
        path: "/buyer/email".into(),
        message: "expected string, got number".into(),
    };
    assert_eq!(err.to_string(), "/buyer/email: expected string, got number");
}

#[test]
fn resolve_error_message_names_path() {
    let err = ResolveError::FileNotFound { path: "a/b.json".to_string() };
    assert_eq!(err.to_message(), "file not found: a/b.json");
}

#[test]
fn compose_error_message_names_capability() {
    let err = ComposeError::UnknownParent { extension: "child".into(), parent: "ghost".into() };
    assert_eq!(err.to_message(), "extension 'child' references unknown parent 'ghost'");
}
