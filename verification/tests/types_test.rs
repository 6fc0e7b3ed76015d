use ucp_schema::{Direction, ResolveOptions, Visibility};

#[test]
fn direction_annotation_key() {
    assert_eq!(Direction::Request.annotation_key(), "ucp_request");
    assert_eq!(Direction::Response.annotation_key(), "ucp_response");
}

#[test]
fn direction_from_request_flag() {
    assert_eq!(Direction::from_request_flag(true), Direction::Request);
    assert_eq!(Direction::from_request_flag(false), Direction::Response);
}

#[test]
fn visibility_parse_valid() {
    assert_eq!(Visibility::parse("omit"), Some(Visibility::Omit));
    assert_eq!(Visibility::parse("required"), Some(Visibility::Required));
    assert_eq!(Visibility::parse("optional"), Some(Visibility::Optional));
}

#[test]
fn visibility_parse_invalid() {
    assert_eq!(Visibility::parse("include"), None);
    assert_eq!(Visibility::parse("readonly"), None);
    assert_eq!(Visibility::parse(""), None);
}

#[test]
fn resolve_options_normalizes_operation() {
    let opts = ResolveOptions::new(Direction::Request, "Create");
    assert_eq!(opts.operation, "create");

    let opts = ResolveOptions::new(Direction::Request, "UPDATE");
    assert_eq!(opts.operation, "update");
}

#[test]
fn resolve_options_strict_flag() {
    let opts = ResolveOptions::new(Direction::Request, "create");
    assert!(!opts.strict);
    let opts = opts.strict(true);
    assert!(opts.strict);
}
