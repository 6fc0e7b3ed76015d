use ucp_schema::{load_schema_str, resolve, Direction, Json, ResolveOptions};

fn parse(s: &str) -> Json {
    load_schema_str(s).unwrap()
}

fn ap<'a>(v: &'a Json) -> Option<&'a Json> {
    v.get("additionalProperties")
}

#[test]
fn default_is_not_strict() {
    let schema = parse(
        r##"{
        "type": "object",
        "properties": {
            "name": { "type": "string" }
        }
    }"##,
    );
    let options = ResolveOptions::new(Direction::Request, "create");
    let result = resolve(&schema, &options).unwrap();
    assert!(ap(&result).is_none());
}

#[test]
fn injects_additional_properties_false() {
    let schema = parse(
        r##"{
        "type": "object",
        "properties": {
            "name": { "type": "string" }
        }
    }"##,
    );
    let options = ResolveOptions::new(Direction::Request, "create").strict(true);
    let result = resolve(&schema, &options).unwrap();
    assert_eq!(ap(&result), Some(&Json::Bool(false)));
}

#[test]
fn preserves_explicit_false() {
    let schema = parse(
        r##"{
        "type": "object",
        "additionalProperties": false,
        "properties": {
            "name": { "type": "string" }
        }
    }"##,
    );
    let options = ResolveOptions::new(Direction::Request, "create").strict(true);
    let result = resolve(&schema, &options).unwrap();
    assert_eq!(ap(&result), Some(&Json::Bool(false)));
}

#[test]
fn preserves_custom_schema() {
    let schema = parse(
        r##"{
        "type": "object",
        "additionalProperties": { "type": "string" },
        "properties": {
            "name": { "type": "string" }
        }
    }"##,
    );
    let options = ResolveOptions::new(Direction::Request, "create").strict(true);
    let result = resolve(&schema, &options).unwrap();
    assert_eq!(ap(&result), Some(&parse(r##"{ "type": "string" }"##)));
}

#[test]
fn applies_to_nested_objects() {
    let schema = parse(
        r##"{
        "type": "object",
        "properties": {
            "address": {
                "type": "object",
                "properties": {
                    "city": { "type": "string" }
                }
            }
        }
    }"##,
    );
    let options = ResolveOptions::new(Direction::Request, "create").strict(true);
    let result = resolve(&schema, &options).unwrap();

    assert_eq!(ap(&result), Some(&Json::Bool(false)));
    let address = result.get("properties").unwrap().get("address").unwrap();
    assert_eq!(ap(address), Some(&Json::Bool(false)));
}

#[test]
fn applies_to_array_items() {
    let schema = parse(
        r##"{
        "type": "array",
        "items": {
            "type": "object",
            "properties": {
                "id": { "type": "string" }
            }
        }
    }"##,
    );
    let options = ResolveOptions::new(Direction::Request, "create").strict(true);
    let result = resolve(&schema, &options).unwrap();

    assert!(ap(&result).is_none());
    assert_eq!(ap(result.get("items").unwrap()), Some(&Json::Bool(false)));
}

#[test]
fn applies_to_defs() {
    let schema = parse(
        r##"{
        "type": "object",
        "properties": {
            "name": { "type": "string" }
        },
        "$defs": {
            "Address": {
                "type": "object",
                "properties": {
                    "city": { "type": "string" }
                }
            }
        }
    }"##,
    );
    let options = ResolveOptions::new(Direction::Request, "create").strict(true);
    let result = resolve(&schema, &options).unwrap();

    let address = result.get("$defs").unwrap().get("Address").unwrap();
    assert_eq!(ap(address), Some(&Json::Bool(false)));
}

#[test]
fn applies_to_allof_branches() {
    let schema = parse(
        r##"{
        "allOf": [
            {
                "type": "object",
                "properties": {
                    "id": { "type": "string" }
                }
            },
            {
                "type": "object",
                "properties": {
                    "name": { "type": "string" }
                }
            }
        ]
    }"##,
    );
    let options = ResolveOptions::new(Direction::Request, "create").strict(true);
    let result = resolve(&schema, &options).unwrap();

    let branches = match result.get("allOf") {
        Some(Json::Arr(items)) => items,
        other => panic!("expected allOf array, got {:?}", other),
    };
    assert_eq!(ap(&branches[0]), Some(&Json::Bool(false)));
    assert_eq!(ap(&branches[1]), Some(&Json::Bool(false)));
}

#[test]
fn non_strict_mode_skips_injection() {
    let schema = parse(
        r##"{
        "type": "object",
        "properties": {
            "name": { "type": "string" }
        }
    }"##,
    );
    let options = ResolveOptions::new(Direction::Request, "create").strict(false);
    let result = resolve(&schema, &options).unwrap();
    assert!(ap(&result).is_none());
}

#[test]
fn non_strict_mode_preserves_true() {
    let schema = parse(
        r##"{
        "type": "object",
        "additionalProperties": true,
        "properties": {
            "name": { "type": "string" }
        }
    }"##,
    );
    let options = ResolveOptions::new(Direction::Request, "create").strict(false);
    let result = resolve(&schema, &options).unwrap();
    assert_eq!(ap(&result), Some(&Json::Bool(true)));
}

#[test]
fn detects_object_by_properties_key() {
    let schema = parse(
        r##"{
        "properties": {
            "name": { "type": "string" }
        }
    }"##,
    );
    let options = ResolveOptions::new(Direction::Request, "create").strict(true);
    let result = resolve(&schema, &options).unwrap();
    assert_eq!(ap(&result), Some(&Json::Bool(false)));
}

#[test]
fn replaces_non_schema_value() {
    let schema = parse(
        r##"{
        "type": "object",
        "additionalProperties": "weird",
        "properties": {
            "name": { "type": "string" }
        }
    }"##,
    );
    let options = ResolveOptions::new(Direction::Request, "create").strict(true);
    let result = resolve(&schema, &options).unwrap();
    assert_eq!(ap(&result), Some(&Json::Bool(false)));
}
