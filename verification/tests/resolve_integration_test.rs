use ucp_schema::{load_schema_str, resolve, Direction, Json, ResolveError, ResolveOptions};

fn parse(s: &str) -> Json {
    load_schema_str(s).unwrap()
}

fn prop<'a>(v: &'a Json, name: &str) -> Option<&'a Json> {
    v.get("properties").unwrap().get(name)
}

fn required_holds(v: &Json, name: &str) -> bool {
    match v.get("required") {
        Some(Json::Arr(items)) => items.iter().any(|i| i == &Json::Str(name.to_string())),
        _ => false,
    }
}

fn nth<'a>(v: &'a Json, key: &str, i: usize) -> &'a Json {
    match v.get(key) {
        Some(Json::Arr(items)) => &items[i],
        other => panic!("expected array at {}, got {:?}", key, other),
    }
}

#[test]
fn shorthand_string() {
    let schema = parse(
        r##"{
        "type": "object",
        "properties": {
            "status": { "type": "string", "ucp_request": "omit" }
        }
    }"##,
    );
    let options = ResolveOptions::new(Direction::Request, "create");
    let result = resolve(&schema, &options).unwrap();
    assert!(prop(&result, "status").is_none());
}

#[test]
fn object_form() {
    let schema = parse(
        r##"{
        "type": "object",
        "properties": {
            "id": {
                "type": "string",
                "ucp_request": {
                    "create": "omit",
                    "update": "required"
                }
            }
        }
    }"##,
    );

    let options = ResolveOptions::new(Direction::Request, "create");
    let result = resolve(&schema, &options).unwrap();
    assert!(prop(&result, "id").is_none());

    let options = ResolveOptions::new(Direction::Request, "update");
    let result = resolve(&schema, &options).unwrap();
    assert!(prop(&result, "id").is_some());
    assert!(required_holds(&result, "id"));
}

#[test]
fn missing_annotation_defaults_to_include() {
    let schema = parse(
        r##"{
        "type": "object",
        "required": ["name"],
        "properties": {
            "name": { "type": "string" }
        }
    }"##,
    );
    let options = ResolveOptions::new(Direction::Request, "create");
    let result = resolve(&schema, &options).unwrap();
    assert!(prop(&result, "name").is_some());
    assert!(required_holds(&result, "name"));
}

#[test]
fn missing_operation_defaults_to_include() {
    let schema = parse(
        r##"{
        "type": "object",
        "properties": {
            "id": {
                "type": "string",
                "ucp_request": { "create": "omit" }
            }
        }
    }"##,
    );
    let options = ResolveOptions::new(Direction::Request, "read");
    let result = resolve(&schema, &options).unwrap();
    assert!(prop(&result, "id").is_some());
}

#[test]
fn both_request_and_response_annotations() {
    let schema = parse(
        r##"{
        "type": "object",
        "properties": {
            "context": {
                "type": "object",
                "ucp_request": "optional",
                "ucp_response": "omit"
            }
        }
    }"##,
    );

    let options = ResolveOptions::new(Direction::Request, "create");
    let result = resolve(&schema, &options).unwrap();
    assert!(prop(&result, "context").is_some());

    let options = ResolveOptions::new(Direction::Response, "create");
    let result = resolve(&schema, &options).unwrap();
    assert!(prop(&result, "context").is_none());
}

#[test]
fn invalid_annotation_type_errors() {
    let schema = parse(
        r##"{
        "type": "object",
        "properties": {
            "id": { "type": "string", "ucp_request": 123 }
        }
    }"##,
    );
    let options = ResolveOptions::new(Direction::Request, "create");
    let result = resolve(&schema, &options);
    assert!(matches!(result, Err(ResolveError::InvalidAnnotationType { .. })));
}

#[test]
fn unknown_visibility_errors() {
    let schema = parse(
        r##"{
        "type": "object",
        "properties": {
            "id": { "type": "string", "ucp_request": "readonly" }
        }
    }"##,
    );
    let options = ResolveOptions::new(Direction::Request, "create");
    let result = resolve(&schema, &options);
    assert!(matches!(
        result,
        Err(ResolveError::UnknownVisibility { value, .. }) if value == "readonly"
    ));
}

#[test]
fn unknown_visibility_in_dict_errors() {
    let schema = parse(
        r##"{
        "type": "object",
        "properties": {
            "id": {
                "type": "string",
                "ucp_request": { "create": "maybe" }
            }
        }
    }"##,
    );
    let options = ResolveOptions::new(Direction::Request, "create");
    let result = resolve(&schema, &options);
    assert!(matches!(
        result,
        Err(ResolveError::UnknownVisibility { value, .. }) if value == "maybe"
    ));
}

#[test]
fn operations_are_case_insensitive() {
    let schema = parse(
        r##"{
        "type": "object",
        "properties": {
            "id": {
                "type": "string",
                "ucp_request": { "create": "omit" }
            }
        }
    }"##,
    );

    let options = ResolveOptions::new(Direction::Request, "Create");
    let result = resolve(&schema, &options).unwrap();
    assert!(prop(&result, "id").is_none());

    let options = ResolveOptions::new(Direction::Request, "CREATE");
    let result = resolve(&schema, &options).unwrap();
    assert!(prop(&result, "id").is_none());
}

#[test]
fn omitted_field_removed_from_required() {
    let schema = parse(
        r##"{
        "type": "object",
        "required": ["id", "name", "email"],
        "properties": {
            "id": { "type": "string", "ucp_request": "omit" },
            "name": { "type": "string" },
            "email": { "type": "string" }
        }
    }"##,
    );
    let options = ResolveOptions::new(Direction::Request, "create");
    let result = resolve(&schema, &options).unwrap();

    assert!(!required_holds(&result, "id"));
    assert!(required_holds(&result, "name"));
    assert!(required_holds(&result, "email"));
}

#[test]
fn required_field_added_to_required() {
    let schema = parse(
        r##"{
        "type": "object",
        "required": ["name"],
        "properties": {
            "id": { "type": "string", "ucp_request": "required" },
            "name": { "type": "string" }
        }
    }"##,
    );
    let options = ResolveOptions::new(Direction::Request, "create");
    let result = resolve(&schema, &options).unwrap();

    assert!(required_holds(&result, "id"));
    assert!(required_holds(&result, "name"));
}

#[test]
fn unrelated_required_fields_preserved() {
    let schema = parse(
        r##"{
        "type": "object",
        "required": ["name", "email"],
        "properties": {
            "id": { "type": "string", "ucp_request": "omit" },
            "name": { "type": "string" },
            "email": { "type": "string" }
        }
    }"##,
    );
    let options = ResolveOptions::new(Direction::Request, "create");
    let result = resolve(&schema, &options).unwrap();

    assert!(required_holds(&result, "name"));
    assert!(required_holds(&result, "email"));
}

#[test]
fn nested_properties() {
    let schema = parse(
        r##"{
        "type": "object",
        "properties": {
            "buyer": {
                "type": "object",
                "properties": {
                    "email": {
                        "type": "string",
                        "ucp_request": { "create": "required" }
                    },
                    "phone": {
                        "type": "string",
                        "ucp_request": { "create": "omit" }
                    }
                }
            }
        }
    }"##,
    );
    let options = ResolveOptions::new(Direction::Request, "create");
    let result = resolve(&schema, &options).unwrap();

    let buyer = prop(&result, "buyer").unwrap();
    assert!(prop(buyer, "email").is_some());
    assert!(required_holds(buyer, "email"));
    assert!(prop(buyer, "phone").is_none());
}

#[test]
fn array_items() {
    let schema = parse(
        r##"{
        "type": "object",
        "properties": {
            "line_items": {
                "type": "array",
                "items": {
                    "type": "object",
                    "properties": {
                        "sku": { "type": "string", "ucp_request": "required" },
                        "price": { "type": "number", "ucp_request": "omit" }
                    }
                }
            }
        }
    }"##,
    );
    let options = ResolveOptions::new(Direction::Request, "create");
    let result = resolve(&schema, &options).unwrap();

    let items = prop(&result, "line_items").unwrap().get("items").unwrap();
    assert!(prop(items, "sku").is_some());
    assert!(prop(items, "price").is_none());
}

#[test]
fn defs() {
    let schema = parse(
        r##"{
        "type": "object",
        "$defs": {
            "address": {
                "type": "object",
                "properties": {
                    "street": { "type": "string" },
                    "internal_id": { "type": "string", "ucp_request": "omit" }
                }
            }
        },
        "properties": {
            "shipping": { "$ref": "#/$defs/address" }
        }
    }"##,
    );
    let options = ResolveOptions::new(Direction::Request, "create");
    let result = resolve(&schema, &options).unwrap();

    let address = result.get("$defs").unwrap().get("address").unwrap();
    assert!(prop(address, "street").is_some());
    assert!(prop(address, "internal_id").is_none());
}

#[test]
fn deep_nesting_five_levels() {
    let schema = parse(
        r##"{
        "type": "object",
        "properties": {
            "level1": { "type": "object", "properties": {
                "level2": { "type": "object", "properties": {
                    "level3": { "type": "object", "properties": {
                        "level4": { "type": "object", "properties": {
                            "level5": { "type": "string", "ucp_request": "omit" }
                        }}
                    }}
                }}
            }}
        }
    }"##,
    );
    let options = ResolveOptions::new(Direction::Request, "create");
    let result = resolve(&schema, &options).unwrap();

    let level4 = prop(
        prop(prop(prop(&result, "level1").unwrap(), "level2").unwrap(), "level3").unwrap(),
        "level4",
    )
    .unwrap();
    assert!(prop(level4, "level5").is_none());
}

#[test]
fn allof_transforms_each_branch() {
    let schema = parse(
        r##"{
        "allOf": [
            {
                "type": "object",
                "properties": {
                    "id": { "type": "string", "ucp_request": "omit" }
                }
            },
            {
                "type": "object",
                "properties": {
                    "name": { "type": "string", "ucp_request": "required" }
                }
            }
        ]
    }"##,
    );
    let options = ResolveOptions::new(Direction::Request, "create");
    let result = resolve(&schema, &options).unwrap();

    assert!(prop(nth(&result, "allOf", 0), "id").is_none());
    assert!(prop(nth(&result, "allOf", 1), "name").is_some());
    assert!(required_holds(nth(&result, "allOf", 1), "name"));
}

#[test]
fn allof_tighten_omit_to_required() {
    let schema = parse(
        r##"{
        "allOf": [
            {
                "type": "object",
                "properties": {
                    "id": { "type": "string", "ucp_request": { "create": "omit" } }
                }
            },
            {
                "type": "object",
                "properties": {
                    "id": { "type": "string", "ucp_request": { "create": "required" } }
                }
            }
        ]
    }"##,
    );
    let options = ResolveOptions::new(Direction::Request, "create");
    let result = resolve(&schema, &options).unwrap();

    assert!(prop(nth(&result, "allOf", 0), "id").is_none());
    assert!(prop(nth(&result, "allOf", 1), "id").is_some());
    assert!(required_holds(nth(&result, "allOf", 1), "id"));
}

#[test]
fn allof_loosen_required_to_omit_base_wins() {
    let schema = parse(
        r##"{
        "allOf": [
            {
                "type": "object",
                "properties": {
                    "id": { "type": "string", "ucp_request": { "create": "required" } }
                }
            },
            {
                "type": "object",
                "properties": {
                    "id": { "type": "string", "ucp_request": { "create": "omit" } }
                }
            }
        ]
    }"##,
    );
    let options = ResolveOptions::new(Direction::Request, "create");
    let result = resolve(&schema, &options).unwrap();

    assert!(prop(nth(&result, "allOf", 0), "id").is_some());
    assert!(required_holds(nth(&result, "allOf", 0), "id"));
    assert!(prop(nth(&result, "allOf", 1), "id").is_none());
}

#[test]
fn anyof_transforms_each_branch() {
    let schema = parse(
        r##"{
        "anyOf": [
            {
                "type": "object",
                "properties": {
                    "card": { "type": "object", "ucp_request": "required" }
                }
            },
            {
                "type": "object",
                "properties": {
                    "token": { "type": "string", "ucp_request": "required" }
                }
            }
        ]
    }"##,
    );
    let options = ResolveOptions::new(Direction::Request, "create");
    let result = resolve(&schema, &options).unwrap();

    assert!(prop(nth(&result, "anyOf", 0), "card").is_some());
    assert!(prop(nth(&result, "anyOf", 1), "token").is_some());
}

#[test]
fn oneof_transforms_each_branch() {
    let schema = parse(
        r##"{
        "oneOf": [
            {
                "type": "object",
                "properties": {
                    "type": { "const": "credit_card" },
                    "number": { "type": "string", "ucp_request": "required" }
                }
            },
            {
                "type": "object",
                "properties": {
                    "type": { "const": "bank_account" },
                    "routing": { "type": "string", "ucp_request": "required" }
                }
            }
        ]
    }"##,
    );
    let options = ResolveOptions::new(Direction::Request, "create");
    let result = resolve(&schema, &options).unwrap();

    assert!(prop(nth(&result, "oneOf", 0), "number").is_some());
    assert!(prop(nth(&result, "oneOf", 1), "routing").is_some());
}

#[test]
fn false_preserved_after_filtering() {
    let schema = parse(
        r##"{
        "type": "object",
        "additionalProperties": false,
        "properties": {
            "id": { "type": "string", "ucp_request": "omit" },
            "name": { "type": "string" }
        }
    }"##,
    );
    let options = ResolveOptions::new(Direction::Request, "create");
    let result = resolve(&schema, &options).unwrap();

    assert_eq!(result.get("additionalProperties"), Some(&Json::Bool(false)));
    assert!(prop(&result, "id").is_none());
}

#[test]
fn true_becomes_false_in_strict_mode() {
    let schema = parse(
        r##"{
        "type": "object",
        "additionalProperties": true,
        "properties": {
            "id": { "type": "string", "ucp_request": "omit" }
        }
    }"##,
    );
    let options = ResolveOptions::new(Direction::Request, "create").strict(true);
    let result = resolve(&schema, &options).unwrap();

    assert_eq!(result.get("additionalProperties"), Some(&Json::Bool(false)));
}

#[test]
fn true_unchanged_in_non_strict_mode() {
    let schema = parse(
        r##"{
        "type": "object",
        "additionalProperties": true,
        "properties": {
            "id": { "type": "string", "ucp_request": "omit" }
        }
    }"##,
    );
    let options = ResolveOptions::new(Direction::Request, "create").strict(false);
    let result = resolve(&schema, &options).unwrap();

    assert_eq!(result.get("additionalProperties"), Some(&Json::Bool(true)));
}

#[test]
fn schema_form_transformed() {
    let schema = parse(
        r##"{
        "type": "object",
        "additionalProperties": {
            "type": "object",
            "properties": {
                "internal": { "type": "string", "ucp_request": "omit" }
            }
        }
    }"##,
    );
    let options = ResolveOptions::new(Direction::Request, "create");
    let result = resolve(&schema, &options).unwrap();

    let ap = result.get("additionalProperties").unwrap();
    assert!(prop(ap, "internal").is_none());
}
