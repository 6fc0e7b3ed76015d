use ucp_schema::{
    get_visibility, load_schema_str, resolve, strip_annotations, Direction, Json, ResolveError,
    ResolveOptions, Visibility,
};

fn parse(s: &str) -> Json {
    load_schema_str(s).unwrap()
}

#[test]
fn get_visibility_shorthand_omit() {
    let prop = parse(r##"{"type": "string", "ucp_request": "omit"}"##);
    let vis = get_visibility(&prop, Direction::Request, "create", "/test").unwrap();
    assert_eq!(vis, Visibility::Omit);
}

#[test]
fn get_visibility_shorthand_required() {
    let prop = parse(r##"{"type": "string", "ucp_request": "required"}"##);
    let vis = get_visibility(&prop, Direction::Request, "create", "/test").unwrap();
    assert_eq!(vis, Visibility::Required);
}

#[test]
fn get_visibility_object_form() {
    let prop = parse(
        r##"{
        "type": "string",
        "ucp_request": {
            "create": "omit",
            "update": "required"
        }
    }"##,
    );
    let vis = get_visibility(&prop, Direction::Request, "create", "/test").unwrap();
    assert_eq!(vis, Visibility::Omit);

    let vis = get_visibility(&prop, Direction::Request, "update", "/test").unwrap();
    assert_eq!(vis, Visibility::Required);
}

#[test]
fn get_visibility_missing_annotation() {
    let prop = parse(r##"{"type": "string"}"##);
    let vis = get_visibility(&prop, Direction::Request, "create", "/test").unwrap();
    assert_eq!(vis, Visibility::Include);
}

#[test]
fn get_visibility_missing_operation_in_dict() {
    let prop = parse(r##"{"type": "string", "ucp_request": {"create": "omit"}}"##);
    let vis = get_visibility(&prop, Direction::Request, "update", "/test").unwrap();
    assert_eq!(vis, Visibility::Include);
}

#[test]
fn get_visibility_response_direction() {
    let prop = parse(r##"{"type": "string", "ucp_response": "omit"}"##);
    let vis = get_visibility(&prop, Direction::Response, "create", "/test").unwrap();
    assert_eq!(vis, Visibility::Omit);

    let vis = get_visibility(&prop, Direction::Request, "create", "/test").unwrap();
    assert_eq!(vis, Visibility::Include);
}

#[test]
fn get_visibility_invalid_type_errors() {
    let prop = parse(r##"{"type": "string", "ucp_request": 123}"##);
    let result = get_visibility(&prop, Direction::Request, "create", "/test");
    assert!(matches!(result, Err(ResolveError::InvalidAnnotationType { .. })));
}

#[test]
fn get_visibility_unknown_visibility_errors() {
    let prop = parse(r##"{"type": "string", "ucp_request": "readonly"}"##);
    let result = get_visibility(&prop, Direction::Request, "create", "/test");
    assert!(matches!(
        result,
        Err(ResolveError::UnknownVisibility { value, .. }) if value == "readonly"
    ));
}

#[test]
fn get_visibility_unknown_in_dict_errors() {
    let prop = parse(r##"{"type": "string", "ucp_request": {"create": "maybe"}}"##);
    let result = get_visibility(&prop, Direction::Request, "create", "/test");
    assert!(matches!(
        result,
        Err(ResolveError::UnknownVisibility { value, .. }) if value == "maybe"
    ));
}

#[test]
fn resolve_omit_removes_field() {
    let schema = parse(
        r##"{
        "type": "object",
        "properties": {
            "id": { "type": "string", "ucp_request": "omit" },
            "name": { "type": "string" }
        }
    }"##,
    );
    let options = ResolveOptions::new(Direction::Request, "create");
    let result = resolve(&schema, &options).unwrap();

    let props = result.get("properties").unwrap();
    assert!(props.get("id").is_none());
    assert!(props.get("name").is_some());
}

#[test]
fn resolve_omit_removes_from_required() {
    let schema = parse(
        r##"{
        "type": "object",
        "required": ["id", "name"],
        "properties": {
            "id": { "type": "string", "ucp_request": "omit" },
            "name": { "type": "string" }
        }
    }"##,
    );
    let options = ResolveOptions::new(Direction::Request, "create");
    let result = resolve(&schema, &options).unwrap();

    let required = result.get("required").unwrap();
    assert_eq!(required, &parse(r##"["name"]"##));
}

#[test]
fn resolve_required_adds_to_required() {
    let schema = parse(
        r##"{
        "type": "object",
        "properties": {
            "id": { "type": "string", "ucp_request": "required" }
        }
    }"##,
    );
    let options = ResolveOptions::new(Direction::Request, "create");
    let result = resolve(&schema, &options).unwrap();

    assert_eq!(result.get("required").unwrap(), &parse(r##"["id"]"##));
}

#[test]
fn resolve_optional_removes_from_required() {
    let schema = parse(
        r##"{
        "type": "object",
        "required": ["id"],
        "properties": {
            "id": { "type": "string", "ucp_request": "optional" }
        }
    }"##,
    );
    let options = ResolveOptions::new(Direction::Request, "create");
    let result = resolve(&schema, &options).unwrap();

    assert_eq!(result.get("required").unwrap(), &parse("[]"));
}

#[test]
fn resolve_include_preserves_original() {
    let schema = parse(
        r##"{
        "type": "object",
        "required": ["id"],
        "properties": {
            "id": { "type": "string" },
            "name": { "type": "string" }
        }
    }"##,
    );
    let options = ResolveOptions::new(Direction::Request, "create");
    let result = resolve(&schema, &options).unwrap();

    let props = result.get("properties").unwrap();
    assert!(props.get("id").is_some());
    assert!(props.get("name").is_some());

    assert_eq!(result.get("required").unwrap(), &parse(r##"["id"]"##));
}

#[test]
fn resolve_strips_annotations() {
    let schema = parse(
        r##"{
        "type": "object",
        "properties": {
            "id": {
                "type": "string",
                "ucp_request": "required",
                "ucp_response": "omit"
            }
        }
    }"##,
    );
    let options = ResolveOptions::new(Direction::Request, "create");
    let result = resolve(&schema, &options).unwrap();

    let id = result.get("properties").unwrap().get("id").unwrap();
    assert!(id.get("ucp_request").is_none());
    assert!(id.get("ucp_response").is_none());
}

#[test]
fn resolve_empty_schema_after_filtering() {
    let schema = parse(
        r##"{
        "type": "object",
        "required": ["id"],
        "properties": {
            "id": { "type": "string", "ucp_request": "omit" }
        }
    }"##,
    );
    let options = ResolveOptions::new(Direction::Request, "create");
    let result = resolve(&schema, &options).unwrap();

    assert_eq!(result.get("properties").unwrap(), &parse("{}"));
    assert_eq!(result.get("required").unwrap(), &parse("[]"));
}

#[test]
fn resolve_end_to_end_no_required_key_invented() {
    let schema = parse(
        r##"{
        "type": "object",
        "properties": {
            "id": { "type": "string", "ucp_request": "omit" },
            "name": { "type": "string" }
        }
    }"##,
    );
    let options = ResolveOptions::new(Direction::Request, "create");
    let result = resolve(&schema, &options).unwrap();

    let expected = parse(
        r##"{
        "type": "object",
        "properties": {
            "name": { "type": "string" }
        }
    }"##,
    );
    assert_eq!(result, expected);
}

#[test]
fn resolve_end_to_end_required_key_persists_when_emptied() {
    let schema = parse(
        r##"{
        "type": "object",
        "required": ["id"],
        "properties": {
            "id": { "type": "string", "ucp_request": {"create": "omit"} }
        }
    }"##,
    );
    let options = ResolveOptions::new(Direction::Request, "create");
    let result = resolve(&schema, &options).unwrap();

    assert_eq!(result.get("properties").unwrap(), &parse("{}"));
    assert_eq!(result.get("required").unwrap(), &parse("[]"));
}

#[test]
fn strip_annotations_removes_all_ucp() {
    let schema = parse(
        r##"{
        "type": "object",
        "properties": {
            "id": {
                "type": "string",
                "ucp_request": "omit",
                "ucp_response": "required"
            }
        }
    }"##,
    );
    let result = strip_annotations(&schema);

    let id = result.get("properties").unwrap().get("id").unwrap();
    assert!(id.get("ucp_request").is_none());
    assert!(id.get("ucp_response").is_none());
}

#[test]
fn strip_annotations_twice_equals_once() {
    let schema = parse(
        r##"{
        "type": "object",
        "properties": {
            "id": { "type": "string", "ucp_request": "omit" },
            "nested": {
                "type": "object",
                "properties": {
                    "x": { "type": "number", "ucp_response": "required" }
                }
            }
        },
        "items": [1, {"ucp_request": "omit"}]
    }"##,
    );
    let once = strip_annotations(&schema);
    let twice = strip_annotations(&once);
    assert_eq!(once, twice);
}

#[test]
fn json_type_name_of_each_variant() {
    assert_eq!(ucp_schema::json_type_name(&parse("null")), "null");
    assert_eq!(ucp_schema::json_type_name(&parse("true")), "boolean");
    assert_eq!(ucp_schema::json_type_name(&parse("3")), "number");
    assert_eq!(ucp_schema::json_type_name(&parse("\"x\"")), "string");
    assert_eq!(ucp_schema::json_type_name(&parse("[]")), "array");
    assert_eq!(ucp_schema::json_type_name(&parse("{}")), "object");
}

#[test]
fn required_name_not_duplicated() {
    let schema = parse(
        r##"{
        "type": "object",
        "required": ["id"],
        "properties": {
            "id": { "type": "string", "ucp_request": "required" }
        }
    }"##,
    );
    let options = ResolveOptions::new(Direction::Request, "create");
    let result = resolve(&schema, &options).unwrap();

    assert_eq!(result.get("required").unwrap(), &parse(r##"["id"]"##));
}

#[test]
fn required_keeps_authored_order() {
    let schema = parse(
        r##"{
        "type": "object",
        "required": ["b", "a"],
        "properties": {
            "a": { "type": "string" },
            "b": { "type": "string" },
            "c": { "type": "string", "ucp_request": "required" }
        }
    }"##,
    );
    let options = ResolveOptions::new(Direction::Request, "create");
    let result = resolve(&schema, &options).unwrap();

    assert_eq!(result.get("required").unwrap(), &parse(r##"["b", "a", "c"]"##));
}

#[test]
fn required_non_string_items_dropped() {
    let schema = parse(
        r##"{
        "type": "object",
        "required": ["id", 5, "name"],
        "properties": {
            "id": { "type": "string" },
            "name": { "type": "string" }
        }
    }"##,
    );
    let options = ResolveOptions::new(Direction::Request, "create");
    let result = resolve(&schema, &options).unwrap();

    assert_eq!(result.get("required").unwrap(), &parse(r##"["id", "name"]"##));
}

#[test]
fn annotations_stripped_under_malformed_composition() {
    let schema = parse(r##"{"allOf": {"ucp_request": "omit", "type": "object"}}"##);
    let options = ResolveOptions::new(Direction::Request, "create");
    let result = resolve(&schema, &options).unwrap();

    let all_of = result.get("allOf").unwrap();
    assert!(all_of.get("ucp_request").is_none());
    assert_eq!(all_of.get("type"), Some(&Json::Str("object".to_string())));
}

#[test]
fn annotations_stripped_under_malformed_properties() {
    let schema = parse(
        r##"{
        "properties": [
            {"ucp_response": "omit", "type": "string"}
        ]
    }"##,
    );
    let options = ResolveOptions::new(Direction::Request, "create");
    let result = resolve(&schema, &options).unwrap();

    let first = match result.get("properties") {
        Some(Json::Arr(items)) => &items[0],
        other => panic!("expected array under properties, got {:?}", other),
    };
    assert!(first.get("ucp_response").is_none());
    assert_eq!(first.get("type"), Some(&Json::Str("string".to_string())));
}
