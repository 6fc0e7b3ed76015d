use ucp_schema::{
    bundle_refs, bundle_refs_with_url_mapping, is_url, load_schema_str, navigate_fragment,
    resolve_ref_to_path, DocStore, Json, ResolveError,
};

fn parse(s: &str) -> Json {
    load_schema_str(s).unwrap()
}

#[test]
fn load_schema_str_valid() {
    let schema = parse(r##"{"type": "object"}"##);
    assert_eq!(schema.get("type"), Some(&Json::Str("object".to_string())));
}

#[test]
fn load_schema_str_invalid() {
    let result = load_schema_str("not json");
    assert!(matches!(result, Err(ResolveError::InvalidJson { .. })));
}

#[test]
fn is_url_https() {
    assert!(is_url("https://example.com/schema.json"));
}

#[test]
fn is_url_http() {
    assert!(is_url("http://example.com/schema.json"));
}

#[test]
fn is_url_file_path() {
    assert!(!is_url("/path/to/schema.json"));
    assert!(!is_url("./schema.json"));
    assert!(!is_url("schema.json"));
}

#[test]
fn resolve_ref_to_path_with_url_mapping() {
    let path = resolve_ref_to_path(
        "https://ucp.dev/draft/schemas/ucp.json",
        "/some/dir",
        Some("/local/schemas"),
        Some("https://ucp.dev/draft"),
    );
    assert_eq!(path, "/local/schemas/schemas/ucp.json");
}

#[test]
fn resolve_ref_to_path_url_not_matching_remote() {
    let path = resolve_ref_to_path(
        "https://other.com/schemas/foo.json",
        "/some/dir",
        Some("/local/schemas"),
        Some("https://ucp.dev/draft"),
    );
    assert_eq!(path, "/some/dir/https://other.com/schemas/foo.json");
}

#[test]
fn resolve_ref_to_path_relative_ref() {
    let path = resolve_ref_to_path("types/buyer.json", "/some/dir", None, None);
    assert_eq!(path, "/some/dir/types/buyer.json");
}

#[test]
fn resolve_ref_to_path_strips_leading_slash() {
    let path = resolve_ref_to_path(
        "https://ucp.dev/draft/schemas/foo.json",
        "/some/dir",
        Some("/local"),
        Some("https://ucp.dev/draft"),
    );
    assert_eq!(path, "/local/schemas/foo.json");
}

#[test]
fn navigate_fragment_defs_entry() {
    let schema = parse(r##"{"$defs": {"thing": {"type": "string"}}}"##);
    let found = navigate_fragment(&schema, "#/$defs/thing").unwrap();
    assert_eq!(found, parse(r##"{"type": "string"}"##));
}

#[test]
fn navigate_fragment_whole_document() {
    let schema = parse(r##"{"type": "object"}"##);
    let found = navigate_fragment(&schema, "#").unwrap();
    assert_eq!(found, schema);
}

#[test]
fn navigate_fragment_missing() {
    let schema = parse(r##"{"$defs": {}}"##);
    let result = navigate_fragment(&schema, "#/$defs/missing");
    assert!(matches!(result, Err(ResolveError::BundleError { .. })));
}

#[test]
fn navigate_fragment_unescapes_pointer_tokens() {
    let schema = parse(r##"{"$defs": {"a/b": {"x": 1}, "t~e": {"x": 2}}}"##);
    let found = navigate_fragment(&schema, "#/$defs/a~1b").unwrap();
    assert_eq!(found, parse(r##"{"x": 1}"##));
    let found = navigate_fragment(&schema, "#/$defs/t~0e").unwrap();
    assert_eq!(found, parse(r##"{"x": 2}"##));
}

#[test]
fn bundle_refs_no_external_refs_unchanged() {
    let schema = parse(
        r##"{
        "type": "object",
        "properties": {
            "id": { "type": "string", "ucp_request": "omit" },
            "self": { "$ref": "#" },
            "inner": { "$ref": "#/$defs/thing" }
        }
    }"##,
    );
    let store = DocStore::new();
    let out = bundle_refs(&schema, "/base", &store).unwrap();
    assert_eq!(out, schema);
}

#[test]
fn bundle_refs_inlines_external_file() {
    let schema = parse(r##"{"properties": {"buyer": {"$ref": "types/buyer.json"}}}"##);
    let mut store = DocStore::new();
    store.insert(
        "/base/types/buyer.json".to_string(),
        parse(r##"{"type": "object", "properties": {"email": {"type": "string"}}}"##),
    );
    let out = bundle_refs(&schema, "/base", &store).unwrap();
    let buyer = out.get("properties").unwrap().get("buyer").unwrap();
    assert_eq!(buyer.get("type"), Some(&Json::Str("object".to_string())));
    assert!(buyer.get("$ref").is_none());
}

#[test]
fn bundle_refs_missing_file_reports_path() {
    let schema = parse(r##"{"a": {"$ref": "types/buyer.json"}}"##);
    let store = DocStore::new();
    let result = bundle_refs(&schema, "/base", &store);
    match result {
        Err(ResolveError::FileNotFound { path }) => {
            assert_eq!(path, "/base/types/buyer.json");
        },
        other => panic!("expected FileNotFound, got {:?}", other),
    }
}

#[test]
fn bundle_refs_external_fragment() {
    let schema = parse(r##"{"x": {"$ref": "types.json#/$defs/thing"}}"##);
    let mut store = DocStore::new();
    store.insert(
        "/base/types.json".to_string(),
        parse(r##"{"$defs": {"thing": {"type": "string"}}}"##),
    );
    let out = bundle_refs(&schema, "/base", &store).unwrap();
    let x = out.get("x").unwrap();
    assert_eq!(x.get("type"), Some(&Json::Str("string".to_string())));
}

#[test]
fn bundle_refs_two_file_cycle_fails() {
    let schema = parse(r##"{"a": {"$ref": "a.json"}}"##);
    let mut store = DocStore::new();
    store.insert("/base/a.json".to_string(), parse(r##"{"$ref": "b.json"}"##));
    store.insert("/base/b.json".to_string(), parse(r##"{"$ref": "a.json"}"##));
    let result = bundle_refs(&schema, "/base", &store);
    match result {
        Err(ResolveError::BundleError { message }) => {
            assert!(message.starts_with("circular reference detected:"), "{}", message);
        },
        other => panic!("expected a circular-reference error, got {:?}", other),
    }
}

#[test]
fn bundle_refs_diamond_sharing_is_legal() {
    let schema = parse(
        r##"{
        "left": {"$ref": "shared.json"},
        "right": {"$ref": "shared.json"}
    }"##,
    );
    let mut store = DocStore::new();
    store.insert("/base/shared.json".to_string(), parse(r##"{"type": "string"}"##));
    let out = bundle_refs(&schema, "/base", &store).unwrap();
    assert_eq!(out.get("left"), Some(&parse(r##"{"type": "string"}"##)));
    assert_eq!(out.get("right"), Some(&parse(r##"{"type": "string"}"##)));
}

#[test]
fn bundle_refs_preserves_self_ref_in_loaded_file() {
    let schema = parse(r##"{"node": {"$ref": "tree.json"}}"##);
    let mut store = DocStore::new();
    store.insert(
        "/base/tree.json".to_string(),
        parse(r##"{"type": "object", "properties": {"children": {"$ref": "#"}}}"##),
    );
    let out = bundle_refs(&schema, "/base", &store).unwrap();
    let node = out.get("node").unwrap();
    let children = node.get("properties").unwrap().get("children").unwrap();
    assert_eq!(children.get("$ref"), Some(&Json::Str("#".to_string())));
}

#[test]
fn bundle_refs_resolves_internal_refs_of_loaded_file() {
    let schema = parse(r##"{"item": {"$ref": "doc.json#/$defs/outer"}}"##);
    let mut store = DocStore::new();
    store.insert(
        "/base/doc.json".to_string(),
        parse(
            r##"{
            "$defs": {
                "outer": {"properties": {"inner": {"$ref": "#/$defs/leaf"}}},
                "leaf": {"type": "number"}
            }
        }"##,
        ),
    );
    let out = bundle_refs(&schema, "/base", &store).unwrap();
    let inner = out
        .get("item")
        .unwrap()
        .get("properties")
        .unwrap()
        .get("inner")
        .unwrap();
    assert_eq!(inner.get("type"), Some(&Json::Str("number".to_string())));
}

#[test]
fn bundle_refs_existing_keys_win_over_inlined() {
    let schema = parse(r##"{"a": {"$ref": "t.json", "description": "mine"}}"##);
    let mut store = DocStore::new();
    store.insert(
        "/base/t.json".to_string(),
        parse(r##"{"type": "string", "description": "theirs"}"##),
    );
    let out = bundle_refs(&schema, "/base", &store).unwrap();
    let a = out.get("a").unwrap();
    assert_eq!(a.get("description"), Some(&Json::Str("mine".to_string())));
    assert_eq!(a.get("type"), Some(&Json::Str("string".to_string())));
}

#[test]
fn bundle_refs_with_url_mapping_maps_absolute_urls() {
    let schema = parse(r##"{"a": {"$ref": "https://ucp.dev/draft/schemas/t.json"}}"##);
    let mut store = DocStore::new();
    store.insert("site/schemas/t.json".to_string(), parse(r##"{"type": "boolean"}"##));
    let out =
        bundle_refs_with_url_mapping(&schema, "/cwd", "site", "https://ucp.dev/draft", &store)
            .unwrap();
    let a = out.get("a").unwrap();
    assert_eq!(a.get("type"), Some(&Json::Str("boolean".to_string())));
}

#[test]
fn bundle_refs_cycle_caught_across_spellings() {
    let schema = parse(r##"{"a": {"$ref": "a.json"}}"##);
    let mut store = DocStore::new();
    store.insert("/base/a.json".to_string(), parse(r##"{"$ref": "./b.json"}"##));
    store.insert("/base/./b.json".to_string(), parse(r##"{"$ref": "../base/a.json"}"##));
    store.insert("/base/./../base/a.json".to_string(), parse(r##"{"$ref": "./b.json"}"##));
    let result = bundle_refs(&schema, "/base", &store);
    match result {
        Err(ResolveError::BundleError { message }) => {
            assert!(message.starts_with("circular reference detected:"), "{}", message);
        },
        other => panic!("expected a circular-reference error, got {:?}", other),
    }
}
