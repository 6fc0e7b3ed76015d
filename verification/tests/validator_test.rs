use ucp_schema::{load_schema_str, validate, Direction, Json, ResolveOptions, ValidateError};

fn parse(s: &str) -> Json {
    load_schema_str(s).unwrap()
}

#[test]
fn validate_valid_payload() {
    let schema = parse(
        r##"{
        "type": "object",
        "properties": {
            "name": { "type": "string" }
        },
        "required": ["name"]
    }"##,
    );
    let payload = parse(r##"{ "name": "test" }"##);
    let options = ResolveOptions::new(Direction::Request, "create");

    let result = validate(&schema, &payload, &options);
    assert!(result.is_ok());
}

#[test]
fn validate_missing_required_field() {
    let schema = parse(
        r##"{
        "type": "object",
        "properties": {
            "name": { "type": "string", "ucp_request": "required" }
        }
    }"##,
    );
    let payload = parse("{}");
    let options = ResolveOptions::new(Direction::Request, "create");

    let result = validate(&schema, &payload, &options);
    assert!(matches!(result, Err(ValidateError::Invalid { .. })));
}

#[test]
fn validate_wrong_type() {
    let schema = parse(
        r##"{
        "type": "object",
        "properties": {
            "name": { "type": "string" }
        }
    }"##,
    );
    let payload = parse(r##"{ "name": 123 }"##);
    let options = ResolveOptions::new(Direction::Request, "create");

    let result = validate(&schema, &payload, &options);
    assert!(matches!(result, Err(ValidateError::Invalid { .. })));
}

#[test]
fn validate_omitted_field_rejected() {
    let schema = parse(
        r##"{
        "type": "object",
        "additionalProperties": false,
        "properties": {
            "id": { "type": "string", "ucp_request": "omit" },
            "name": { "type": "string" }
        }
    }"##,
    );
    let payload = parse(r##"{ "name": "test", "id": "123" }"##);
    let options = ResolveOptions::new(Direction::Request, "create");

    let result = validate(&schema, &payload, &options);
    assert!(matches!(result, Err(ValidateError::Invalid { .. })));
}

#[test]
fn validate_collects_multiple_errors() {
    let schema = parse(
        r##"{
        "type": "object",
        "properties": {
            "name": { "type": "string", "ucp_request": "required" },
            "age": { "type": "number", "ucp_request": "required" }
        }
    }"##,
    );
    let payload = parse("{}");
    let options = ResolveOptions::new(Direction::Request, "create");

    let result = validate(&schema, &payload, &options);
    match result {
        Err(ValidateError::Invalid { errors }) => {
            assert_eq!(errors.len(), 2);
        },
        _ => panic!("expected validation error with 2 errors"),
    }
}

#[test]
fn validate_surfaces_resolution_errors() {
    let schema = parse(
        r##"{
        "type": "object",
        "properties": {
            "id": { "type": "string", "ucp_request": "readonly" }
        }
    }"##,
    );
    let payload = parse("{}");
    let options = ResolveOptions::new(Direction::Request, "create");

    let result = validate(&schema, &payload, &options);
    assert!(matches!(result, Err(ValidateError::Resolve(_))));
}
